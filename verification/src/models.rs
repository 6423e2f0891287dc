//! The state of one device: what its motion, temperature and light sensors
//! last reported, each with a rolling history, and how an event changes it.

use crate::events::{
    fields_of, or_default, EventView, HueEvent, LightLevelReport, MotionReport, TemperatureReport,
    UpdateFields, UpdateFieldsView,
};
use crate::history::{
    fits_window, has_distinct_times, has_sample_at, is_settled, is_time_ordered,
    lemma_replay_adds_nothing, lemma_replay_later_adds_nothing, lemma_update_keeps_distinct,
    lemma_update_keeps_window, lemma_update_twice, pruned, recorded, update, updated,
    HISTORY_WINDOW_SECS,
};
use crate::json::json_model;
use crate::text::{copy_text, same_text};
use crate::time::{current_time, format_rfc3339, rfc3339_text, Timestamp};
use vstd::prelude::*;
use vstd::string::StringExecFns;

verus! {

/// The mathematical value of one capability of a device: its resource, whether
/// it is switched on, its latest value, and the history of its values.
pub struct Capability<T> {
    pub id: Seq<char>,
    pub id_v1: Option<Seq<char>>,
    pub enabled: bool,
    pub value: T,
    pub last_updated: Timestamp,
    pub history: Seq<(Timestamp, T)>,
}

/// The motion sensor of a device.
#[derive(Debug, PartialEq)]
pub struct MotionData {
    pub id: String,
    pub id_v1: Option<String>,
    pub enabled: bool,
    pub presence: bool,
    pub last_updated: Timestamp,
    pub history: Vec<(Timestamp, bool)>,
}

/// The temperature sensor of a device. Readings are degrees, held as the bit
/// pattern of a double.
#[derive(Debug, PartialEq)]
pub struct TemperatureData {
    pub id: String,
    pub id_v1: Option<String>,
    pub enabled: bool,
    pub temperature: u64,
    pub last_updated: Timestamp,
    pub history: Vec<(Timestamp, u64)>,
}

/// The light sensor of a device.
#[derive(Debug, PartialEq)]
pub struct LightData {
    pub id: String,
    pub id_v1: Option<String>,
    pub enabled: bool,
    pub light_level: i32,
    pub last_updated: Timestamp,
    pub history: Vec<(Timestamp, i32)>,
}

/// One physical device with the sensors it has.
#[derive(Debug, PartialEq)]
pub struct CompositeSensor {
    pub device_id: String,
    pub name: String,
    pub is_outdoor: bool,
    pub enabled: bool,
    pub motion: Option<MotionData>,
    pub temperature: Option<TemperatureData>,
    pub light: Option<LightData>,
}

/// The mathematical value of a [`CompositeSensor`].
pub struct SensorView {
    pub device_id: Seq<char>,
    pub name: Seq<char>,
    pub is_outdoor: bool,
    pub enabled: bool,
    pub motion: Option<Capability<bool>>,
    pub temperature: Option<Capability<u64>>,
    pub light: Option<Capability<i32>>,
}

impl View for MotionData {
    type V = Capability<bool>;

    open spec fn view(&self) -> Capability<bool> {
        Capability {
            id: self.id@,
            id_v1: self.id_v1.deep_view(),
            enabled: self.enabled,
            value: self.presence,
            last_updated: self.last_updated,
            history: self.history@,
        }
    }
}

impl DeepView for MotionData {
    type V = Capability<bool>;

    open spec fn deep_view(&self) -> Capability<bool> {
        self@
    }
}

impl View for TemperatureData {
    type V = Capability<u64>;

    open spec fn view(&self) -> Capability<u64> {
        Capability {
            id: self.id@,
            id_v1: self.id_v1.deep_view(),
            enabled: self.enabled,
            value: self.temperature,
            last_updated: self.last_updated,
            history: self.history@,
        }
    }
}

impl DeepView for TemperatureData {
    type V = Capability<u64>;

    open spec fn deep_view(&self) -> Capability<u64> {
        self@
    }
}

impl View for LightData {
    type V = Capability<i32>;

    open spec fn view(&self) -> Capability<i32> {
        Capability {
            id: self.id@,
            id_v1: self.id_v1.deep_view(),
            enabled: self.enabled,
            value: self.light_level,
            last_updated: self.last_updated,
            history: self.history@,
        }
    }
}

impl DeepView for LightData {
    type V = Capability<i32>;

    open spec fn deep_view(&self) -> Capability<i32> {
        self@
    }
}

impl View for CompositeSensor {
    type V = SensorView;

    open spec fn view(&self) -> SensorView {
        SensorView {
            device_id: self.device_id@,
            name: self.name@,
            is_outdoor: self.is_outdoor,
            enabled: self.enabled,
            motion: self.motion.deep_view(),
            temperature: self.temperature.deep_view(),
            light: self.light.deep_view(),
        }
    }
}

impl DeepView for CompositeSensor {
    type V = SensorView;

    open spec fn deep_view(&self) -> SensorView {
        self@
    }
}

/// Whether a capability is switched on; one that the device lacks counts as
/// switched on.
pub open spec fn on_or_absent<T>(cap: Option<Capability<T>>) -> bool {
    match cap {
        Some(c) => c.enabled,
        None => true,
    }
}

/// The capability after an event of its kind: created from the event if the
/// device had none, else updated in place; in both cases the event's sample
/// enters the history.
pub open spec fn absorbed<T>(
    prior: Option<Capability<T>>,
    id: Seq<char>,
    enabled: bool,
    value: T,
    changed: Timestamp,
    now: Timestamp,
) -> Capability<T> {
    match prior {
        Some(c) => Capability {
            id: c.id,
            id_v1: c.id_v1,
            enabled,
            value,
            last_updated: changed,
            history: updated(c.history, changed, value, now),
        },
        None => Capability {
            id,
            id_v1: None,
            enabled,
            value,
            last_updated: changed,
            history: updated(Seq::empty(), changed, value, now),
        },
    }
}

/// The capability that a report replaces the prior one with. The history is
/// not part of a report: that of the prior capability stays.
pub open spec fn replaced<T>(
    prior: Option<Capability<T>>,
    id: Seq<char>,
    id_v1: Option<Seq<char>>,
    enabled: bool,
    value: T,
    changed: Timestamp,
) -> Capability<T> {
    Capability {
        id,
        id_v1,
        enabled,
        value,
        last_updated: changed,
        history: match prior {
            Some(c) => c.history,
            None => Seq::empty(),
        },
    }
}

/// The prior capability with its switch set, if there is one.
pub open spec fn switched<T>(prior: Option<Capability<T>>, enabled: bool) -> Option<Capability<T>> {
    match prior {
        Some(c) => Some(Capability { enabled, ..c }),
        None => None,
    }
}

/// The capability after an update of its type: replaced where the update
/// has a reading, switched where it only has the flag, else as it was.
pub open spec fn refreshed_capability<T>(
    prior: Option<Capability<T>>,
    id: Seq<char>,
    id_v1: Option<Seq<char>>,
    enabled: bool,
    reading: Option<(T, Timestamp)>,
    has_enabled: bool,
) -> Option<Capability<T>> {
    match reading {
        Some((value, changed)) => Some(replaced(prior, id, id_v1, enabled, value, changed)),
        None => if has_enabled {
            switched(prior, enabled)
        } else {
            prior
        },
    }
}

/// The value and time of a motion report; a missing value reads as false, a
/// missing time as `now`.
pub open spec fn motion_reading(report: Option<MotionReport>, now: Timestamp) -> Option<
    (bool, Timestamp),
> {
    match report {
        Some(r) => Some((or_default(r.motion, false), or_default(r.changed, now))),
        None => None,
    }
}

/// The value and time of a temperature report; a missing value reads as
/// zero, a missing time as `now`.
pub open spec fn temperature_reading(report: Option<TemperatureReport>, now: Timestamp) -> Option<
    (u64, Timestamp),
> {
    match report {
        Some(r) => Some((or_default(r.temperature, 0u64), or_default(r.changed, now))),
        None => None,
    }
}

/// The value and time of a light-level report; a missing value reads as
/// zero, a missing time as `now`. The level is cut to 32 bits.
pub open spec fn light_reading(report: Option<LightLevelReport>, now: Timestamp) -> Option<
    (i32, Timestamp),
> {
    match report {
        Some(r) => Some((or_default(r.light_level, 0i64) as i32, or_default(r.changed, now))),
        None => None,
    }
}

/// The text that stands for the time of the last update of a capability in a
/// fingerprint: empty for a capability that the device lacks, and for a time
/// out of the calendar's reach.
pub open spec fn stamp<T>(cap: Option<Capability<T>>) -> Seq<char> {
    match cap {
        Some(c) => match rfc3339_text(c.last_updated) {
            Some(text) => text,
            None => Seq::empty(),
        },
        None => Seq::empty(),
    }
}

impl SensorView {
    /// Whether every capability that the device has is switched on.
    pub open spec fn all_enabled(self) -> bool {
        on_or_absent(self.motion) && on_or_absent(self.temperature) && on_or_absent(self.light)
    }

    /// The sensor with its switch set to what its capabilities say.
    pub open spec fn settled(self) -> SensorView {
        SensorView { enabled: self.all_enabled(), ..self }
    }

    /// The sensor after an event, with `now` as the end of the history
    /// window. A raw event changes nothing.
    pub open spec fn applied(self, event: EventView, now: Timestamp) -> SensorView {
        match event {
            EventView::Motion { id, presence, changed, enabled, .. } => SensorView {
                motion: Some(absorbed(self.motion, id, enabled, presence, changed, now)),
                ..self
            }.settled(),
            EventView::Temperature { id, temperature, changed, enabled, .. } => SensorView {
                temperature: Some(absorbed(self.temperature, id, enabled, temperature, changed, now)),
                ..self
            }.settled(),
            EventView::LightLevel { id, light_level, changed, enabled, .. } => SensorView {
                light: Some(absorbed(self.light, id, enabled, light_level, changed, now)),
                ..self
            }.settled(),
            EventView::Raw { .. } => self,
        }
    }

    /// Whether an event is for this sensor: the event names this device as
    /// the owner of its resource, or its resource is one that a capability of
    /// this sensor has on record.
    pub open spec fn receives(self, event: EventView) -> bool {
        ||| event.owner() == Some(self.device_id)
        ||| event.resource() is Some && {
            ||| (self.motion is Some && self.motion->0.id == event.resource()->0)
            ||| (self.temperature is Some && self.temperature->0.id == event.resource()->0)
            ||| (self.light is Some && self.light->0.id == event.resource()->0)
        }
    }

    /// The fingerprint: the times of the last update of the three
    /// capabilities, joined by hyphens.
    pub open spec fn fingerprint(self) -> Seq<char> {
        stamp(self.motion) + "-"@ + stamp(self.temperature) + "-"@ + stamp(self.light)
    }

    /// The sensor after an update that is read as the resource's state, not
    /// as an event: a report replaces the capability of its type, an update
    /// without a report sets the capability's switch if it has one.
    pub open spec fn refreshed(self, f: UpdateFieldsView, now: Timestamp) -> SensorView {
        let id = or_default(f.id, Seq::empty());
        let enabled = or_default(f.enabled, true);
        if f.kind == Some("motion"@) {
            SensorView {
                motion: refreshed_capability(
                    self.motion,
                    id,
                    f.id_v1,
                    enabled,
                    motion_reading(f.motion, now),
                    f.has_enabled,
                ),
                ..self
            }.settled()
        } else if f.kind == Some("temperature"@) {
            SensorView {
                temperature: refreshed_capability(
                    self.temperature,
                    id,
                    f.id_v1,
                    enabled,
                    temperature_reading(f.temperature, now),
                    f.has_enabled,
                ),
                ..self
            }.settled()
        } else if f.kind == Some("light_level"@) {
            SensorView {
                light: refreshed_capability(
                    self.light,
                    id,
                    f.id_v1,
                    enabled,
                    light_reading(f.light, now),
                    f.has_enabled,
                ),
                ..self
            }.settled()
        } else {
            self.settled()
        }
    }
}

/// Whether an event is one of the three sensor events.
pub open spec fn is_sensor_event(event: EventView) -> bool {
    !(event is Raw)
}

/// Whether the histories of a capability that may be missing are in time
/// order without two samples of one time.
pub open spec fn is_well_kept<T>(cap: Option<Capability<T>>) -> bool {
    match cap {
        Some(c) => is_time_ordered(c.history) && has_distinct_times(c.history),
        None => true,
    }
}

impl SensorView {
    /// The invariant of a sensor: its switch says what its capabilities say,
    /// and each history is in time order without two samples of one time.
    pub open spec fn is_consistent(self) -> bool {
        &&& self.enabled == self.all_enabled()
        &&& is_well_kept(self.motion)
        &&& is_well_kept(self.temperature)
        &&& is_well_kept(self.light)
    }
}

/// After an event of its kind the history of a capability is in time order,
/// holds the event's sample or a later one, and all its samples but the first
/// lie inside the window that ends at `now`; if no two samples of the prior
/// history had one time, none of the new history have.
pub proof fn lemma_absorbed_history<T>(
    prior: Option<Capability<T>>,
    id: Seq<char>,
    enabled: bool,
    value: T,
    changed: Timestamp,
    now: Timestamp,
)
    ensures
        is_time_ordered(absorbed(prior, id, enabled, value, changed, now).history),
        fits_window(
            absorbed(prior, id, enabled, value, changed, now).history,
            now.instant_back(HISTORY_WINDOW_SECS as int),
        ),
        absorbed(prior, id, enabled, value, changed, now).history.len() >= 1,
        absorbed(prior, id, enabled, value, changed, now).history.last().0.instant()
            >= changed.instant(),
        (prior is Some ==> has_distinct_times(prior->0.history)) ==> has_distinct_times(
            absorbed(prior, id, enabled, value, changed, now).history,
        ),
{
    let before = match prior {
        Some(c) => c.history,
        None => Seq::empty(),
    };
    lemma_update_keeps_window(before, changed, value, now);
    if prior is Some ==> has_distinct_times(prior->0.history) {
        lemma_update_keeps_distinct(before, changed, value, now);
    }
    let rec = recorded(before, changed, value);
    if has_sample_at(before, changed) {
        let i = choose|i: int| 0 <= i < before.len() && (#[trigger] before[i]).0 == changed;
        assert(rec.contains(before[i]));
    } else {
        assert(rec[before.len() as int] == (changed, value));
        assert(rec.contains((changed, value)));
    }
}

/// Events keep a sensor consistent.
pub proof fn lemma_applied_keeps_consistent(s: SensorView, event: EventView, now: Timestamp)
    requires
        s.is_consistent(),
    ensures
        s.applied(event, now).is_consistent(),
{
    match event {
        EventView::Motion { id, presence, changed, enabled, .. } => {
            lemma_absorbed_history(s.motion, id, enabled, presence, changed, now);
        },
        EventView::Temperature { id, temperature, changed, enabled, .. } => {
            lemma_absorbed_history(s.temperature, id, enabled, temperature, changed, now);
        },
        EventView::LightLevel { id, light_level, changed, enabled, .. } => {
            lemma_absorbed_history(s.light, id, enabled, light_level, changed, now);
        },
        EventView::Raw { .. } => {},
    }
}

/// After a sensor event the switch of the sensor is the conjunction of the
/// switches of the capabilities it has; an event that switches a capability
/// off leaves the sensor switched off. A raw event leaves the sensor as it is.
pub proof fn lemma_applied_enabled(s: SensorView, event: EventView, now: Timestamp)
    ensures
        is_sensor_event(event) ==> s.applied(event, now).enabled == s.applied(
            event,
            now,
        ).all_enabled(),
        event matches EventView::Motion { enabled, .. } ==> (s.applied(event, now).enabled ==> enabled),
        event matches EventView::Temperature { enabled, .. } ==> (s.applied(event, now).enabled
            ==> enabled),
        event matches EventView::LightLevel { enabled, .. } ==> (s.applied(event, now).enabled
            ==> enabled),
        event is Raw ==> s.applied(event, now) == s,
{
}

/// An event that is applied a second time, under the same clock reading,
/// changes nothing: its sample does not enter the history twice.
pub proof fn lemma_applied_twice(s: SensorView, event: EventView, now: Timestamp)
    ensures
        s.applied(event, now).applied(event, now) == s.applied(event, now),
{
    match event {
        EventView::Motion { id, presence, changed, enabled, .. } => {
            let before = match s.motion {
                Some(c) => c.history,
                None => Seq::empty(),
            };
            lemma_update_twice(before, changed, presence, presence, now);
        },
        EventView::Temperature { id, temperature, changed, enabled, .. } => {
            let before = match s.temperature {
                Some(c) => c.history,
                None => Seq::empty(),
            };
            lemma_update_twice(before, changed, temperature, temperature, now);
        },
        EventView::LightLevel { id, light_level, changed, enabled, .. } => {
            let before = match s.light {
                Some(c) => c.history,
                None => Seq::empty(),
            };
            lemma_update_twice(before, changed, light_level, light_level, now);
        },
        EventView::Raw { .. } => {},
    }
}

/// The capability with the window that ends at `now` applied to its history.
pub open spec fn rewindowed<T>(cap: Option<Capability<T>>, now: Timestamp) -> Option<Capability<T>> {
    match cap {
        Some(c) => Some(
            Capability {
                history: pruned(c.history, now.instant_back(HISTORY_WINDOW_SECS as int)),
                ..c
            },
        ),
        None => None,
    }
}

/// Whether a replay at `again` of a sample taken at `t` finds it settled in
/// the history of a capability.
pub open spec fn is_settled_in<T>(cap: Option<Capability<T>>, t: Timestamp, again: Timestamp) -> bool {
    match cap {
        Some(c) => is_settled(c.history, t, again),
        None => false,
    }
}

/// Whether one history is no longer than the other, for capabilities that
/// are both there.
pub open spec fn is_no_longer<T>(after: Option<Capability<T>>, before: Option<Capability<T>>) -> bool {
    after is Some && before is Some && after->0.history.len() <= before->0.history.len()
}

impl SensorView {
    /// The sensor with the window that ends at `now` applied to the history
    /// of the capability that `event` is for.
    pub open spec fn rewindowed(self, event: EventView, now: Timestamp) -> SensorView {
        match event {
            EventView::Motion { .. } => SensorView { motion: rewindowed(self.motion, now), ..self },
            EventView::Temperature { .. } => SensorView {
                temperature: rewindowed(self.temperature, now),
                ..self
            },
            EventView::LightLevel { .. } => SensorView { light: rewindowed(self.light, now), ..self },
            EventView::Raw { .. } => self,
        }
    }

    /// Whether a replay of `event` at `again` finds its sample settled: the
    /// sample is still in the history of its capability, or the first sample
    /// of that history lies before the window that ends at `again`.
    pub open spec fn is_settled_for(self, event: EventView, again: Timestamp) -> bool {
        match event {
            EventView::Motion { changed, .. } => is_settled_in(self.motion, changed, again),
            EventView::Temperature { changed, .. } => is_settled_in(
                self.temperature,
                changed,
                again,
            ),
            EventView::LightLevel { changed, .. } => is_settled_in(self.light, changed, again),
            EventView::Raw { .. } => true,
        }
    }

    /// Whether the history of the capability that `event` is for is no
    /// longer in this sensor than in `before`.
    pub open spec fn is_no_longer_for(self, event: EventView, before: SensorView) -> bool {
        match event {
            EventView::Motion { .. } => is_no_longer(self.motion, before.motion),
            EventView::Temperature { .. } => is_no_longer(self.temperature, before.temperature),
            EventView::LightLevel { .. } => is_no_longer(self.light, before.light),
            EventView::Raw { .. } => true,
        }
    }
}

/// An event that is applied again, at whatever reading of the clock, when
/// its sample is settled, adds no sample: the sensor that follows is the
/// sensor that the first application left, with the window of the replay
/// applied to the history of the event's capability. That history is
/// therefore no longer than before.
pub proof fn lemma_applied_again(s: SensorView, event: EventView, first: Timestamp, again: Timestamp)
    requires
        s.applied(event, first).is_settled_for(event, again),
    ensures
        s.applied(event, first).applied(event, again) == s.applied(event, first).rewindowed(
            event,
            again,
        ),
        s.applied(event, first).applied(event, again).is_no_longer_for(
            event,
            s.applied(event, first),
        ),
{
    match event {
        EventView::Motion { id, presence, changed, enabled, .. } => {
            let before = match s.motion {
                Some(c) => c.history,
                None => Seq::empty(),
            };
            lemma_replay_adds_nothing(before, changed, presence, presence, first, again);
        },
        EventView::Temperature { id, temperature, changed, enabled, .. } => {
            let before = match s.temperature {
                Some(c) => c.history,
                None => Seq::empty(),
            };
            lemma_replay_adds_nothing(before, changed, temperature, temperature, first, again);
        },
        EventView::LightLevel { id, light_level, changed, enabled, .. } => {
            let before = match s.light {
                Some(c) => c.history,
                None => Seq::empty(),
            };
            lemma_replay_adds_nothing(before, changed, light_level, light_level, first, again);
        },
        EventView::Raw { .. } => {},
    }
}

/// An event that is applied again when the clock has not stepped back finds
/// its sample settled: the replay adds no sample, and a consistent sensor
/// keeps at most one sample of each time.
pub proof fn lemma_applied_later(s: SensorView, event: EventView, first: Timestamp, again: Timestamp)
    requires
        first.instant() <= again.instant(),
    ensures
        s.applied(event, first).is_settled_for(event, again),
        s.applied(event, first).applied(event, again) == s.applied(event, first).rewindowed(
            event,
            again,
        ),
        s.applied(event, first).applied(event, again).is_no_longer_for(
            event,
            s.applied(event, first),
        ),
        s.is_consistent() ==> s.applied(event, first).applied(event, again).is_consistent(),
{
    match event {
        EventView::Motion { id, presence, changed, enabled, .. } => {
            let before = match s.motion {
                Some(c) => c.history,
                None => Seq::empty(),
            };
            lemma_replay_later_adds_nothing(before, changed, presence, presence, first, again);
        },
        EventView::Temperature { id, temperature, changed, enabled, .. } => {
            let before = match s.temperature {
                Some(c) => c.history,
                None => Seq::empty(),
            };
            lemma_replay_later_adds_nothing(before, changed, temperature, temperature, first, again);
        },
        EventView::LightLevel { id, light_level, changed, enabled, .. } => {
            let before = match s.light {
                Some(c) => c.history,
                None => Seq::empty(),
            };
            lemma_replay_later_adds_nothing(before, changed, light_level, light_level, first, again);
        },
        EventView::Raw { .. } => {},
    }
    lemma_applied_again(s, event, first, again);
    if s.is_consistent() {
        lemma_applied_keeps_consistent(s, event, first);
        lemma_applied_keeps_consistent(s.applied(event, first), event, again);
    }
}

/// A copy of a history.
pub fn copy_history<T: Copy>(history: &Vec<(Timestamp, T)>) -> (copy: Vec<(Timestamp, T)>)
    ensures
        copy@ == history@,
{
    let mut copy: Vec<(Timestamp, T)> = Vec::new();
    let mut i: usize = 0;
    while i < history.len()
        invariant
            i <= history.len(),
            copy@ == history@.subrange(0, i as int),
        decreases history.len() - i,
    {
        copy.push((history[i].0, history[i].1));
        assert(copy@ =~= history@.subrange(0, i + 1));
        i += 1;
    }
    assert(history@.subrange(0, history.len() as int) =~= history@);
    copy
}

impl Clone for MotionData {
    fn clone(&self) -> (copy: Self)
        ensures
            copy@ == self@,
    {
        MotionData {
            id: self.id.clone(),
            id_v1: copy_text(&self.id_v1),
            enabled: self.enabled,
            presence: self.presence,
            last_updated: self.last_updated,
            history: copy_history(&self.history),
        }
    }
}

impl Clone for TemperatureData {
    fn clone(&self) -> (copy: Self)
        ensures
            copy@ == self@,
    {
        TemperatureData {
            id: self.id.clone(),
            id_v1: copy_text(&self.id_v1),
            enabled: self.enabled,
            temperature: self.temperature,
            last_updated: self.last_updated,
            history: copy_history(&self.history),
        }
    }
}

impl Clone for LightData {
    fn clone(&self) -> (copy: Self)
        ensures
            copy@ == self@,
    {
        LightData {
            id: self.id.clone(),
            id_v1: copy_text(&self.id_v1),
            enabled: self.enabled,
            light_level: self.light_level,
            last_updated: self.last_updated,
            history: copy_history(&self.history),
        }
    }
}

impl Clone for CompositeSensor {
    fn clone(&self) -> (copy: Self)
        ensures
            copy@ == self@,
    {
        CompositeSensor {
            device_id: self.device_id.clone(),
            name: self.name.clone(),
            is_outdoor: self.is_outdoor,
            enabled: self.enabled,
            motion: match &self.motion {
                Some(m) => Some(m.clone()),
                None => None,
            },
            temperature: match &self.temperature {
                Some(t) => Some(t.clone()),
                None => None,
            },
            light: match &self.light {
                Some(l) => Some(l.clone()),
                None => None,
            },
        }
    }
}

/// The text that stands for a time in a fingerprint.
fn stamp_text(at: Option<Timestamp>) -> (text: String)
    ensures
        text@ == match at {
            Some(t) => match rfc3339_text(t) {
                Some(s) => s,
                None => Seq::empty(),
            },
            None => Seq::empty(),
        },
{
    match at {
        Some(t) => match format_rfc3339(t) {
            Some(s) => s,
            None => String::new(),
        },
        None => String::new(),
    }
}

fn refresh_motion(
    slot: &mut Option<MotionData>,
    id: String,
    id_v1: Option<String>,
    enabled: bool,
    report: Option<MotionReport>,
    has_enabled: bool,
    now: Timestamp,
)
    ensures
        final(slot).deep_view() == refreshed_capability(
            old(slot).deep_view(),
            id@,
            id_v1.deep_view(),
            enabled,
            motion_reading(report, now),
            has_enabled,
        ),
{
    match report {
        Some(r) => {
            let history = match slot.take() {
                Some(m) => m.history,
                None => Vec::new(),
            };
            *slot = Some(
                MotionData {
                    id,
                    id_v1,
                    enabled,
                    presence: match r.motion {
                        Some(m) => m,
                        None => false,
                    },
                    last_updated: match r.changed {
                        Some(at) => at,
                        None => now,
                    },
                    history,
                },
            );
        },
        None => {
            if has_enabled {
                match slot.take() {
                    Some(mut m) => {
                        m.enabled = enabled;
                        *slot = Some(m);
                    },
                    None => {},
                }
            }
        },
    }
}

fn refresh_temperature(
    slot: &mut Option<TemperatureData>,
    id: String,
    id_v1: Option<String>,
    enabled: bool,
    report: Option<TemperatureReport>,
    has_enabled: bool,
    now: Timestamp,
)
    ensures
        final(slot).deep_view() == refreshed_capability(
            old(slot).deep_view(),
            id@,
            id_v1.deep_view(),
            enabled,
            temperature_reading(report, now),
            has_enabled,
        ),
{
    match report {
        Some(r) => {
            let history = match slot.take() {
                Some(t) => t.history,
                None => Vec::new(),
            };
            *slot = Some(
                TemperatureData {
                    id,
                    id_v1,
                    enabled,
                    temperature: match r.temperature {
                        Some(t) => t,
                        None => 0,
                    },
                    last_updated: match r.changed {
                        Some(at) => at,
                        None => now,
                    },
                    history,
                },
            );
        },
        None => {
            if has_enabled {
                match slot.take() {
                    Some(mut t) => {
                        t.enabled = enabled;
                        *slot = Some(t);
                    },
                    None => {},
                }
            }
        },
    }
}

fn refresh_light(
    slot: &mut Option<LightData>,
    id: String,
    id_v1: Option<String>,
    enabled: bool,
    report: Option<LightLevelReport>,
    has_enabled: bool,
    now: Timestamp,
)
    ensures
        final(slot).deep_view() == refreshed_capability(
            old(slot).deep_view(),
            id@,
            id_v1.deep_view(),
            enabled,
            light_reading(report, now),
            has_enabled,
        ),
{
    match report {
        Some(r) => {
            let history = match slot.take() {
                Some(l) => l.history,
                None => Vec::new(),
            };
            let level: i64 = match r.light_level {
                Some(l) => l,
                None => 0,
            };
            *slot = Some(
                LightData {
                    id,
                    id_v1,
                    enabled,
                    light_level: #[verifier::truncate]
                    (level as i32),
                    last_updated: match r.changed {
                        Some(at) => at,
                        None => now,
                    },
                    history,
                },
            );
        },
        None => {
            if has_enabled {
                match slot.take() {
                    Some(mut l) => {
                        l.enabled = enabled;
                        *slot = Some(l);
                    },
                    None => {},
                }
            }
        },
    }
}

impl CompositeSensor {
    /// A device without sensors, switched on.
    pub fn new(device_id: String, name: String, is_outdoor: bool) -> (sensor: CompositeSensor)
        ensures
            sensor@ == (SensorView {
                device_id: device_id@,
                name: name@,
                is_outdoor,
                enabled: true,
                motion: None,
                temperature: None,
                light: None,
            }),
    {
        CompositeSensor {
            device_id,
            name,
            is_outdoor,
            enabled: true,
            motion: None,
            temperature: None,
            light: None,
        }
    }

    /// Whether every sensor that the device has is switched on.
    pub fn all_enabled(&self) -> (on: bool)
        ensures
            on == self@.all_enabled(),
    {
        let motion = match &self.motion {
            Some(m) => m.enabled,
            None => true,
        };
        let temperature = match &self.temperature {
            Some(t) => t.enabled,
            None => true,
        };
        let light = match &self.light {
            Some(l) => l.enabled,
            None => true,
        };
        motion && temperature && light
    }

    /// Applies an event, with `now` as the end of the history window.
    pub fn apply_event_at(&mut self, event: &HueEvent, now: Timestamp)
        ensures
            final(self)@ == old(self)@.applied(event@, now),
    {
        match event {
            HueEvent::Motion { id, presence, changed, enabled, .. } => {
                let mut motion = match self.motion.take() {
                    Some(m) => m,
                    None => MotionData {
                        id: id.clone(),
                        id_v1: None,
                        enabled: *enabled,
                        presence: *presence,
                        last_updated: *changed,
                        history: Vec::new(),
                    },
                };
                motion.enabled = *enabled;
                motion.presence = *presence;
                motion.last_updated = *changed;
                update(&mut motion.history, *changed, *presence, now);
                self.motion = Some(motion);
            },
            HueEvent::Temperature { id, temperature, changed, enabled, .. } => {
                let mut temp = match self.temperature.take() {
                    Some(t) => t,
                    None => TemperatureData {
                        id: id.clone(),
                        id_v1: None,
                        enabled: *enabled,
                        temperature: *temperature,
                        last_updated: *changed,
                        history: Vec::new(),
                    },
                };
                temp.enabled = *enabled;
                temp.temperature = *temperature;
                temp.last_updated = *changed;
                update(&mut temp.history, *changed, *temperature, now);
                self.temperature = Some(temp);
            },
            HueEvent::LightLevel { id, light_level, changed, enabled, .. } => {
                let mut light = match self.light.take() {
                    Some(l) => l,
                    None => LightData {
                        id: id.clone(),
                        id_v1: None,
                        enabled: *enabled,
                        light_level: *light_level,
                        last_updated: *changed,
                        history: Vec::new(),
                    },
                };
                light.enabled = *enabled;
                light.light_level = *light_level;
                light.last_updated = *changed;
                update(&mut light.history, *changed, *light_level, now);
                self.light = Some(light);
            },
            HueEvent::Raw { .. } => {
                return ;
            },
        }
        self.enabled = self.all_enabled();
    }

    /// Applies an event. The history window ends at the reading of the clock,
    /// whatever the time of the event.
    pub fn apply_event(&mut self, event: &HueEvent)
        ensures
            exists|now: Timestamp| final(self)@ == old(self)@.applied(event@, now),
    {
        let now = current_time();
        self.apply_event_at(event, now);
        assert(self@ == old(self)@.applied(event@, now));
    }

    /// The fingerprint of the sensor: it changes when the time of the last
    /// update of a capability does.
    pub fn fingerprint(&self) -> (print: String)
        ensures
            print@ == self@.fingerprint(),
    {
        let motion = stamp_text(
            match &self.motion {
                Some(m) => Some(m.last_updated),
                None => None,
            },
        );
        let temperature = stamp_text(
            match &self.temperature {
                Some(t) => Some(t.last_updated),
                None => None,
            },
        );
        let light = stamp_text(
            match &self.light {
                Some(l) => Some(l.last_updated),
                None => None,
            },
        );
        let mut print = motion;
        print.append("-");
        print.append(temperature.as_str());
        print.append("-");
        print.append(light.as_str());
        print
    }

    /// Records a sample in a history and applies the window that ends at
    /// `now`.
    pub fn update_history_at<T>(
        history: &mut Vec<(Timestamp, T)>,
        time: Timestamp,
        val: T,
        now: Timestamp,
    )
        ensures
            final(history)@ == updated(old(history)@, time, val, now),
    {
        update(history, time, val, now);
    }

    /// Records a sample in a history and applies the window that ends at the
    /// reading of the clock.
    pub fn update_history<T>(history: &mut Vec<(Timestamp, T)>, time: Timestamp, val: T)
        ensures
            exists|now: Timestamp| final(history)@ == updated(old(history)@, time, val, now),
    {
        let now = current_time();
        update(history, time, val, now);
        assert(history@ == updated(old(history)@, time, val, now));
    }

    /// Takes over what was read of an update as the state of its resource,
    /// with `now` for a time of change that the update does not give.
    pub fn update_from_fields(&mut self, fields: &UpdateFields, now: Timestamp)
        ensures
            final(self)@ == old(self)@.refreshed(fields@, now),
    {
        let id = match &fields.id {
            Some(i) => i.clone(),
            None => String::new(),
        };
        let id_v1 = copy_text(&fields.id_v1);
        let enabled = match fields.enabled {
            Some(e) => e,
            None => true,
        };
        match &fields.kind {
            Some(kind) => {
                if same_text(kind.as_str(), "motion") {
                    refresh_motion(
                        &mut self.motion,
                        id,
                        id_v1,
                        enabled,
                        fields.motion,
                        fields.has_enabled,
                        now,
                    );
                } else if same_text(kind.as_str(), "temperature") {
                    refresh_temperature(
                        &mut self.temperature,
                        id,
                        id_v1,
                        enabled,
                        fields.temperature,
                        fields.has_enabled,
                        now,
                    );
                } else if same_text(kind.as_str(), "light_level") {
                    refresh_light(
                        &mut self.light,
                        id,
                        id_v1,
                        enabled,
                        fields.light,
                        fields.has_enabled,
                        now,
                    );
                }
            },
            None => {},
        }
        self.enabled = self.all_enabled();
    }

    /// Takes over an update as the state of its resource, with `now` for a
    /// time of change that the update does not give.
    pub fn update_from_json_at(&mut self, v: &serde_json::Value, now: Timestamp)
        ensures
            final(self)@ == old(self)@.refreshed(fields_of(json_model(*v)), now),
    {
        let fields = UpdateFields::read(v);
        self.update_from_fields(&fields, now);
    }

    /// Takes over an update as the state of its resource. A time of change
    /// that the update does not give is read from the clock.
    pub fn update_from_json(&mut self, v: &serde_json::Value)
        ensures
            exists|now: Timestamp|
                final(self)@ == old(self)@.refreshed(fields_of(json_model(*v)), now),
    {
        let now = current_time();
        self.update_from_json_at(v, now);
        assert(self@ == old(self)@.refreshed(fields_of(json_model(*v)), now));
    }

    /// Whether an event is for this sensor.
    pub fn receives(&self, event: &HueEvent) -> (yes: bool)
        ensures
            yes == self@.receives(event@),
    {
        let is_owner = match event.owner_rid() {
            Some(owner) => same_text(owner, self.device_id.as_str()),
            None => false,
        };
        let matches_resource = match event.resource_id() {
            Some(resource) => {
                let motion = match &self.motion {
                    Some(m) => same_text(m.id.as_str(), resource),
                    None => false,
                };
                let temperature = match &self.temperature {
                    Some(t) => same_text(t.id.as_str(), resource),
                    None => false,
                };
                let light = match &self.light {
                    Some(l) => same_text(l.id.as_str(), resource),
                    None => false,
                };
                motion || temperature || light
            },
            None => false,
        };
        is_owner || matches_resource
    }
}

} // verus!
