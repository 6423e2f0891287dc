//! The ingestion loop: the one connection to the bridge's update stream,
//! opened again whenever it ends, and what is done with each update.

use crate::bus::EventBus;
use crate::cache::{routed, SensorsCache};
use crate::eventcache::{EventCache, EventCacheView};
use crate::events::{decode_event_at, decoded_text};
use crate::models::SensorView;
use crate::stream::{updates_in_line, updates_of_line};
use crate::time::{current_time, Timestamp};
use vstd::prelude::*;

verus! {

/// The time, in milliseconds, that the loop waits before it opens the stream
/// again.
pub const RECONNECT_DELAY_MS: u64 = 1000;

/// Where the loop stands.
#[derive(Clone, Copy, Debug, PartialEq, Eq, Structural)]
pub enum IngestState {
    Disconnected,
    Streaming,
}

/// What happened to the connection.
#[derive(Clone, Debug, PartialEq, Eq)]
pub enum IngestEvent {
    /// The stream was opened.
    Opened,
    /// The stream could not be opened.
    OpenFailed,
    /// A line was read from the stream.
    Line(String),
    /// The stream ended, or reading it failed.
    Ended,
}

/// What the loop does next.
#[derive(Clone, Debug, PartialEq, Eq)]
pub enum IngestAction {
    /// Wait for so many milliseconds, then open the stream.
    OpenAfter(u64),
    /// Hand on these updates, then read the next line.
    Deliver(Vec<String>),
    /// Read the next line.
    Read,
}

/// The mathematical value of an [`IngestAction`].
pub enum ActionView {
    OpenAfter(u64),
    Deliver(Seq<Seq<char>>),
    Read,
}

impl View for IngestAction {
    type V = ActionView;

    open spec fn view(&self) -> ActionView {
        match self {
            IngestAction::OpenAfter(ms) => ActionView::OpenAfter(*ms),
            IngestAction::Deliver(updates) => ActionView::Deliver(updates.deep_view()),
            IngestAction::Read => ActionView::Read,
        }
    }
}

/// The view of the text that an event carries, if it carries one.
pub open spec fn line_of(event: IngestEvent) -> Option<Seq<char>> {
    match event {
        IngestEvent::Line(text) => Some(text@),
        _ => None,
    }
}

/// The state and the action that follow an event. While disconnected, an
/// opened stream is read and anything else leads to another attempt after
/// the delay, without an upper bound. While streaming, the updates of a line
/// are handed on, and the end of the stream leads to another attempt after
/// the delay.
pub open spec fn next(state: IngestState, event: IngestEvent) -> (IngestState, ActionView) {
    match state {
        IngestState::Disconnected => match event {
            IngestEvent::Opened => (IngestState::Streaming, ActionView::Read),
            _ => (IngestState::Disconnected, ActionView::OpenAfter(RECONNECT_DELAY_MS)),
        },
        IngestState::Streaming => match event {
            IngestEvent::Line(text) => (
                IngestState::Streaming,
                ActionView::Deliver(updates_of_line(text@)),
            ),
            IngestEvent::Ended => (
                IngestState::Disconnected,
                ActionView::OpenAfter(RECONNECT_DELAY_MS),
            ),
            _ => (IngestState::Streaming, ActionView::Read),
        },
    }
}

impl IngestState {
    /// The state in which the loop starts, and its first action: to open the
    /// stream at once.
    pub fn start() -> (first: (IngestState, IngestAction))
        ensures
            first.0 == IngestState::Disconnected,
            first.1@ == ActionView::OpenAfter(0),
    {
        (IngestState::Disconnected, IngestAction::OpenAfter(0))
    }

    /// Decides what follows an event.
    pub fn step(self, event: IngestEvent) -> (then: (IngestState, IngestAction))
        ensures
            (then.0, then.1@) == next(self, event),
    {
        match self {
            IngestState::Disconnected => match event {
                IngestEvent::Opened => (IngestState::Streaming, IngestAction::Read),
                _ => (IngestState::Disconnected, IngestAction::OpenAfter(RECONNECT_DELAY_MS)),
            },
            IngestState::Streaming => match event {
                IngestEvent::Line(text) => (
                    IngestState::Streaming,
                    IngestAction::Deliver(updates_in_line(text.as_str())),
                ),
                IngestEvent::Ended => (
                    IngestState::Disconnected,
                    IngestAction::OpenAfter(RECONNECT_DELAY_MS),
                ),
                _ => (IngestState::Streaming, IngestAction::Read),
            },
        }
    }
}

/// The aggregate cache after an update arrived: the event that the update
/// decodes to is routed to the sensors of the list, if there is a list and
/// the update decodes to an event.
pub open spec fn absorbed_update(
    entry: Option<(Seq<SensorView>, Timestamp)>,
    text: Seq<char>,
    now: Timestamp,
) -> Option<(Seq<SensorView>, Timestamp)> {
    match (entry, decoded_text(text, now)) {
        (Some((sensors, fetched_at)), Some(event)) => Some(
            (routed(sensors, event, now), fetched_at),
        ),
        _ => entry,
    }
}

/// Takes in one update that arrived at `now`: it enters the replay cache,
/// and the event it decodes to is applied to the aggregate cache. An update
/// that decodes to no event still enters the replay cache. The caller
/// publishes the update on the bus afterwards.
pub fn ingest_update_at(
    events: &mut EventCache,
    sensors: &mut SensorsCache,
    text: &str,
    now: Timestamp,
)
    ensures
        final(events)@ == old(events)@.added(text@, now),
        final(sensors)@ == absorbed_update(old(sensors)@, text@, now),
{
    events.add_at(text.to_owned(), now);
    match decode_event_at(text, now) {
        Some(event) => {
            sensors.apply_at(&event, now);
        },
        None => {},
    }
}

/// Whether the two caches are what they become when `text` arrives at `now`.
pub open spec fn is_ingested(
    events_before: EventCacheView,
    events_after: EventCacheView,
    sensors_before: Option<(Seq<SensorView>, Timestamp)>,
    sensors_after: Option<(Seq<SensorView>, Timestamp)>,
    text: Seq<char>,
    now: Timestamp,
) -> bool {
    events_after == events_before.added(text, now) && sensors_after == absorbed_update(
        sensors_before,
        text,
        now,
    )
}

/// Takes in one update that arrives now, by the clock: see
/// [`ingest_update_at`].
pub fn ingest_update(events: &mut EventCache, sensors: &mut SensorsCache, text: &str)
    ensures
        exists|now: Timestamp|
            is_ingested(old(events)@, final(events)@, old(sensors)@, final(sensors)@, text@, now),
{
    let now = current_time();
    ingest_update_at(events, sensors, text, now);
    assert(is_ingested(old(events)@, events@, old(sensors)@, sensors@, text@, now));
}

/// Does with one update that arrived at `now` what the loop does with each,
/// in this order: the update enters the replay cache, the event it decodes
/// to is applied to the aggregate cache, and the update is published on the
/// bus. Returns the number of subscribers it was queued for, of which
/// nothing is promised.
pub fn deliver_update_at(
    events: &mut EventCache,
    sensors: &mut SensorsCache,
    bus: &EventBus,
    text: &str,
    now: Timestamp,
) -> (receivers: usize)
    ensures
        is_ingested(old(events)@, final(events)@, old(sensors)@, final(sensors)@, text@, now),
{
    ingest_update_at(events, sensors, text, now);
    bus.publish(text.to_owned())
}

/// Does with one update that arrives now, by the clock, what the loop does
/// with each: see [`deliver_update_at`].
pub fn deliver_update(
    events: &mut EventCache,
    sensors: &mut SensorsCache,
    bus: &EventBus,
    text: &str,
) -> (receivers: usize)
    ensures
        exists|now: Timestamp|
            is_ingested(old(events)@, final(events)@, old(sensors)@, final(sensors)@, text@, now),
{
    let now = current_time();
    let receivers = deliver_update_at(events, sensors, bus, text, now);
    assert(is_ingested(old(events)@, events@, old(sensors)@, sensors@, text@, now));
    receivers
}

} // verus!
