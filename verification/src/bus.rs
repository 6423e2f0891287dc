//! The event bus: one channel of `tokio` that hands every update to all
//! subscribers, and what a subscriber does with what it reads.

use crate::eventcache::EventCache;
use crate::time::Timestamp;
use vstd::prelude::*;

verus! {

/// The number of updates that the bus of a bridge holds for slow subscribers.
pub const DEFAULT_BACKLOG: usize = 100;

/// The sending half of a broadcast channel of `tokio`.
#[verifier::external_type_specification]
#[verifier::external_body]
#[verifier::reject_recursive_types(T)]
pub struct ExSender<T>(tokio::sync::broadcast::Sender<T>);

/// The receiving half of a broadcast channel of `tokio`.
#[verifier::external_type_specification]
#[verifier::external_body]
#[verifier::reject_recursive_types(T)]
pub struct ExReceiver<T>(tokio::sync::broadcast::Receiver<T>);

/// What a subscriber reads from the bus.
#[derive(Clone, Debug, PartialEq, Eq)]
pub enum BusRead {
    /// The next update.
    Event(String),
    /// The subscriber fell behind: so many updates were overwritten before it
    /// read them. The next read resumes at the oldest update that is left.
    Lagged(u64),
    /// Nothing has arrived yet.
    Empty,
    /// The bus was shut down.
    Closed,
}

/// What a subscriber's stream does after a read.
#[derive(Clone, Debug, PartialEq, Eq)]
pub enum StreamStep {
    /// Hand the update on and read again.
    Emit(String),
    /// Read again: a gap is expected, no error.
    Skip,
    /// Wait for the next update.
    Wait,
    /// End the stream.
    End,
}

/// The step that follows a read: an update is handed on, a gap is passed
/// over, and the stream ends when the bus is shut down.
pub open spec fn step_after(read: BusRead) -> StreamStep {
    match read {
        BusRead::Event(text) => StreamStep::Emit(text),
        BusRead::Lagged(_) => StreamStep::Skip,
        BusRead::Empty => StreamStep::Wait,
        BusRead::Closed => StreamStep::End,
    }
}

/// Decides what a subscriber's stream does after a read.
pub fn stream_step(read: BusRead) -> (step: StreamStep)
    ensures
        step == step_after(read),
{
    match read {
        BusRead::Event(text) => StreamStep::Emit(text),
        BusRead::Lagged(_) => StreamStep::Skip,
        BusRead::Empty => StreamStep::Wait,
        BusRead::Closed => StreamStep::End,
    }
}

/// The number of updates that the channel of a sender was made to hold for
/// slow subscribers.
pub uninterp spec fn backlog_of(sender: tokio::sync::broadcast::Sender<String>) -> nat;

/// The channel that a sender feeds. Two halves with one value here share one
/// channel; nothing is said of halves with different values.
pub uninterp spec fn channel_fed_by(sender: tokio::sync::broadcast::Sender<String>) -> nat;

/// The channel that a receiver reads.
pub uninterp spec fn channel_read_by(receiver: tokio::sync::broadcast::Receiver<String>) -> nat;

/// The place of a cursor in the sequence of all updates of its channel: the
/// number of updates that lie before it, read or passed over, as `tokio`
/// counts them in 64 bits.
pub uninterp spec fn position_of(receiver: tokio::sync::broadcast::Receiver<String>) -> u64;

/// The place that lies `by` updates after `position`; the count starts over
/// beyond 64 bits.
pub open spec fn advanced(position: u64, by: u64) -> u64 {
    ((position + by) % 0x1_0000_0000_0000_0000) as u64
}

/// How a read moves a cursor from `before` to `after`: past the one update
/// it returns; past the updates that it reports as missed, of which there is
/// at least one; and not at all when nothing has arrived. Of a read that
/// finds the bus shut down nothing is said.
pub open spec fn is_moved(before: u64, read: BusRead, after: u64) -> bool {
    match read {
        BusRead::Event(_) => after == advanced(before, 1),
        BusRead::Lagged(missed) => missed > 0 && after == advanced(before, missed),
        BusRead::Empty => after == before,
        BusRead::Closed => true,
    }
}

/// `tokio::sync::broadcast::channel`, of which the sending half is kept.
/// `tokio` stops the program on a capacity of zero or above half of
/// `usize::MAX`. The contract says that the channel was made with this
/// capacity, and nothing of what `tokio` allocates for it.
#[verifier::external_body]
fn open_channel(capacity: usize) -> (sender: tokio::sync::broadcast::Sender<String>)
    requires
        0 < capacity <= usize::MAX / 2,
    ensures
        backlog_of(sender) == capacity,
{
    tokio::sync::broadcast::channel(capacity).0
}

/// `tokio::sync::broadcast::Sender::send`: the number of subscribers that the
/// update was queued for, zero where there is none. It does not wait.
/// Nothing is promised of the number: it depends on who is subscribed.
#[verifier::external_body]
fn send(sender: &tokio::sync::broadcast::Sender<String>, event: String) -> (receivers: usize) {
    match sender.send(event) {
        Ok(n) => n,
        Err(_) => 0,
    }
}

/// `tokio::sync::broadcast::Sender::subscribe`. `tokio` stops the program
/// when a quarter of `usize::MAX` subscribers are alive at once. The contract
/// says that the receiver reads the channel that the sender feeds: `tokio`
/// builds it around the sender's shared state. Nothing is promised of where
/// its cursor stands: that depends on what was sent before.
#[verifier::external_body]
fn new_receiver(sender: &tokio::sync::broadcast::Sender<String>) -> (receiver:
    tokio::sync::broadcast::Receiver<String>)
    ensures
        channel_read_by(receiver) == channel_fed_by(*sender),
{
    sender.subscribe()
}

/// `tokio::sync::broadcast::Receiver::try_recv`, with its result and its
/// three errors as one value. Nothing is promised of which one comes: that
/// depends on what was sent. The contract says how the receiver's cursor
/// moves with each of them, as `tokio` moves its field `next`: by one past a
/// value that is returned, to the oldest value that is left when values were
/// missed, whose number the error gives, and not at all when the channel is
/// empty. The receiver goes on reading the same channel.
#[verifier::external_body]
fn try_receive(receiver: &mut tokio::sync::broadcast::Receiver<String>) -> (read: BusRead)
    ensures
        is_moved(position_of(*old(receiver)), read, position_of(*final(receiver))),
        channel_read_by(*final(receiver)) == channel_read_by(*old(receiver)),
{
    match receiver.try_recv() {
        Ok(text) => BusRead::Event(text),
        Err(tokio::sync::broadcast::error::TryRecvError::Lagged(n)) => BusRead::Lagged(n),
        Err(tokio::sync::broadcast::error::TryRecvError::Empty) => BusRead::Empty,
        Err(tokio::sync::broadcast::error::TryRecvError::Closed) => BusRead::Closed,
    }
}

/// The bus: its one producer publishes, and each subscriber reads at its own
/// pace.
pub struct EventBus {
    sender: tokio::sync::broadcast::Sender<String>,
}

/// The cursor of one subscriber.
pub struct Subscription {
    receiver: tokio::sync::broadcast::Receiver<String>,
}

impl EventBus {
    /// The sending half of the channel of the bus.
    pub closed spec fn channel(&self) -> tokio::sync::broadcast::Sender<String> {
        self.sender
    }

    /// The number of updates that the bus was made to hold for slow
    /// subscribers.
    pub open spec fn backlog(&self) -> nat {
        backlog_of(self.channel())
    }

    /// The channel that the bus publishes on.
    pub open spec fn feeds(&self) -> nat {
        channel_fed_by(self.channel())
    }

    /// A bus that holds `capacity` updates for slow subscribers.
    pub fn new(capacity: usize) -> (bus: EventBus)
        requires
            0 < capacity <= usize::MAX / 2,
        ensures
            bus.backlog() == capacity,
    {
        EventBus { sender: open_channel(capacity) }
    }

    /// A bus that holds `capacity` updates, if a bus can hold so many.
    pub fn try_new(capacity: usize) -> (bus: Option<EventBus>)
        ensures
            bus is Some <==> 0 < capacity <= usize::MAX / 2,
            bus matches Some(b) ==> b.backlog() == capacity,
    {
        if 0 < capacity && capacity <= usize::MAX / 2 {
            Some(EventBus::new(capacity))
        } else {
            None
        }
    }

    /// A bus with the default backlog.
    pub fn with_default_backlog() -> (bus: EventBus)
        ensures
            bus.backlog() == DEFAULT_BACKLOG,
    {
        EventBus::new(DEFAULT_BACKLOG)
    }

    /// Publishes an update without waiting; returns the number of
    /// subscribers it was queued for.
    pub fn publish(&self, event: String) -> (receivers: usize) {
        send(&self.sender, event)
    }

    /// A new subscriber, with a cursor of its own into the channel of this
    /// bus. It reads what is published from now on.
    pub fn subscribe(&self) -> (subscription: Subscription)
        ensures
            subscription.reads() == self.feeds(),
    {
        Subscription { receiver: new_receiver(&self.sender) }
    }

    /// The sending half of the channel of the bus.
    pub fn sender(&self) -> (sender: &tokio::sync::broadcast::Sender<String>)
        ensures
            *sender == self.channel(),
    {
        &self.sender
    }
}

impl Subscription {
    /// The receiving half of the channel that the subscription holds.
    pub closed spec fn cursor(&self) -> tokio::sync::broadcast::Receiver<String> {
        self.receiver
    }

    /// The place of the subscriber in the sequence of all updates of the bus.
    pub open spec fn position(&self) -> u64 {
        position_of(self.cursor())
    }

    /// The channel that the subscriber reads.
    pub open spec fn reads(&self) -> nat {
        channel_read_by(self.cursor())
    }

    /// Reads without waiting. What is read depends on what was published;
    /// the cursor moves past what is read or was missed, and stays on its
    /// channel.
    pub fn poll(&mut self) -> (read: BusRead)
        ensures
            is_moved(old(self).position(), read, final(self).position()),
            final(self).reads() == old(self).reads(),
    {
        try_receive(&mut self.receiver)
    }

    /// Reads without waiting and decides what the stream does next.
    pub fn poll_step(&mut self) -> (step: StreamStep)
        ensures
            exists|read: BusRead|
                step == #[trigger] step_after(read) && is_moved(
                    old(self).position(),
                    read,
                    final(self).position(),
                ),
            final(self).reads() == old(self).reads(),
    {
        let read = self.poll();
        let ghost seen = read;
        let step = stream_step(read);
        assert(step == step_after(seen) && is_moved(old(self).position(), seen, self.position()));
        step
    }

    /// The receiving half of the channel, for a reader that waits: the cursor
    /// of the subscription, at its place.
    pub fn into_receiver(self) -> (receiver: tokio::sync::broadcast::Receiver<String>)
        ensures
            receiver == self.cursor(),
    {
        self.receiver
    }
}

/// What a new consumer of the update stream starts with: its subscription
/// to this bus, and before it the payloads of the replay cache that have not
/// expired at `now`, if it asks for them. The subscription is taken first, so
/// that no update falls between the two.
pub fn hue_events_at(bus: &EventBus, events: &EventCache, cached: bool, now: Timestamp) -> (start: (
    Vec<String>,
    Subscription,
))
    ensures
        start.0.deep_view() == if cached {
            events@.all_at(now)
        } else {
            Seq::<Seq<char>>::empty()
        },
        start.1.reads() == bus.feeds(),
{
    let subscription = bus.subscribe();
    if cached {
        (events.get_all_at(now), subscription)
    } else {
        let none: Vec<String> = Vec::new();
        assert(none.deep_view() =~= Seq::<Seq<char>>::empty());
        (none, subscription)
    }
}

/// What a new consumer of the update stream starts with, by the clock: see
/// [`hue_events_at`].
pub fn hue_events(bus: &EventBus, events: &EventCache, cached: bool) -> (start: (
    Vec<String>,
    Subscription,
))
    ensures
        !cached ==> start.0.deep_view() == Seq::<Seq<char>>::empty(),
        cached ==> exists|now: Timestamp| start.0.deep_view() == #[trigger] events@.all_at(now),
        start.1.reads() == bus.feeds(),
{
    let now = crate::time::current_time();
    let start = hue_events_at(bus, events, cached, now);
    if cached {
        assert(start.0.deep_view() == events@.all_at(now));
    }
    start
}

} // verus!
