//! The updates that the bridge streams, decoded into typed events.

use crate::json::{
    as_double, as_integer, as_text, double_of, flag_at, flag_of, integer_of, is_object, json_model,
    json_parsed, json_rendered, member, member_at, member_of, parse, render, text_at, text_of,
    JsonModel,
};
use crate::text::{copy_text, same_text};
use crate::time::{current_time, parse_rfc3339, rfc3339_instant, Timestamp};
use vstd::prelude::*;

verus! {

/// The report of a motion resource: whether it sees motion, and since when.
#[derive(Clone, Copy, Debug, PartialEq, Eq, Structural)]
pub struct MotionReport {
    pub motion: Option<bool>,
    pub changed: Option<Timestamp>,
}

/// The report of a temperature resource: the reading in degrees, as the bit
/// pattern of a double, and since when.
#[derive(Clone, Copy, Debug, PartialEq, Eq, Structural)]
pub struct TemperatureReport {
    pub temperature: Option<u64>,
    pub changed: Option<Timestamp>,
}

/// The report of a light-level resource: the level, and since when.
#[derive(Clone, Copy, Debug, PartialEq, Eq, Structural)]
pub struct LightLevelReport {
    pub light_level: Option<i64>,
    pub changed: Option<Timestamp>,
}

/// What one update of the stream carries, as far as the sensor model reads it.
#[derive(Clone, Debug, PartialEq)]
pub struct UpdateFields {
    /// Whether the update is a JSON object at all.
    pub is_object: bool,
    /// The resource type, under `type`.
    pub kind: Option<String>,
    pub id: Option<String>,
    pub id_v1: Option<String>,
    /// The device that owns the resource, under `owner.rid`.
    pub owner_rid: Option<String>,
    pub enabled: Option<bool>,
    /// Whether the update has a member `enabled`, of any kind.
    pub has_enabled: bool,
    /// The member `motion.motion_report`.
    pub motion: Option<MotionReport>,
    /// The member `temperature.temperature_report`.
    pub temperature: Option<TemperatureReport>,
    /// The member `light.light_level_report`.
    pub light: Option<LightLevelReport>,
    /// The update as compact JSON text.
    pub payload: String,
}

/// The mathematical value of [`UpdateFields`].
pub struct UpdateFieldsView {
    pub is_object: bool,
    pub kind: Option<Seq<char>>,
    pub id: Option<Seq<char>>,
    pub id_v1: Option<Seq<char>>,
    pub owner_rid: Option<Seq<char>>,
    pub enabled: Option<bool>,
    pub has_enabled: bool,
    pub motion: Option<MotionReport>,
    pub temperature: Option<TemperatureReport>,
    pub light: Option<LightLevelReport>,
    pub payload: Seq<char>,
}

impl View for UpdateFields {
    type V = UpdateFieldsView;

    open spec fn view(&self) -> UpdateFieldsView {
        UpdateFieldsView {
            is_object: self.is_object,
            kind: self.kind.deep_view(),
            id: self.id.deep_view(),
            id_v1: self.id_v1.deep_view(),
            owner_rid: self.owner_rid.deep_view(),
            enabled: self.enabled,
            has_enabled: self.has_enabled,
            motion: self.motion,
            temperature: self.temperature,
            light: self.light,
            payload: self.payload@,
        }
    }
}

/// One update of the stream, decoded. The three sensor kinds carry what the
/// sensor model needs; every other update is kept raw, with the two ids by
/// which it is routed.
#[derive(Debug, PartialEq)]
#[allow(inconsistent_fields)]
pub enum HueEvent {
    Motion { id: String, owner_rid: String, presence: bool, changed: Timestamp, enabled: bool },
    /// The reading is the bit pattern of a double.
    Temperature { id: String, owner_rid: String, temperature: u64, changed: Timestamp, enabled: bool },
    LightLevel { id: String, owner_rid: String, light_level: i32, changed: Timestamp, enabled: bool },
    Raw { id: Option<String>, owner_rid: Option<String>, payload: String },
}

/// The mathematical value of a [`HueEvent`].
#[allow(inconsistent_fields)]
pub enum EventView {
    Motion { id: Seq<char>, owner_rid: Seq<char>, presence: bool, changed: Timestamp, enabled: bool },
    Temperature {
        id: Seq<char>,
        owner_rid: Seq<char>,
        temperature: u64,
        changed: Timestamp,
        enabled: bool,
    },
    LightLevel {
        id: Seq<char>,
        owner_rid: Seq<char>,
        light_level: i32,
        changed: Timestamp,
        enabled: bool,
    },
    Raw { id: Option<Seq<char>>, owner_rid: Option<Seq<char>>, payload: Seq<char> },
}

impl EventView {
    /// The device that owns the resource of the event, if the event names one.
    pub open spec fn owner(self) -> Option<Seq<char>> {
        match self {
            EventView::Motion { owner_rid, .. } => Some(owner_rid),
            EventView::Temperature { owner_rid, .. } => Some(owner_rid),
            EventView::LightLevel { owner_rid, .. } => Some(owner_rid),
            EventView::Raw { owner_rid, .. } => owner_rid,
        }
    }

    /// The resource of the event, if the event names one.
    pub open spec fn resource(self) -> Option<Seq<char>> {
        match self {
            EventView::Motion { id, .. } => Some(id),
            EventView::Temperature { id, .. } => Some(id),
            EventView::LightLevel { id, .. } => Some(id),
            EventView::Raw { id, .. } => id,
        }
    }
}

impl View for HueEvent {
    type V = EventView;

    open spec fn view(&self) -> EventView {
        match self {
            HueEvent::Motion { id, owner_rid, presence, changed, enabled } => EventView::Motion {
                id: id@,
                owner_rid: owner_rid@,
                presence: *presence,
                changed: *changed,
                enabled: *enabled,
            },
            HueEvent::Temperature {
                id,
                owner_rid,
                temperature,
                changed,
                enabled,
            } => EventView::Temperature {
                id: id@,
                owner_rid: owner_rid@,
                temperature: *temperature,
                changed: *changed,
                enabled: *enabled,
            },
            HueEvent::LightLevel {
                id,
                owner_rid,
                light_level,
                changed,
                enabled,
            } => EventView::LightLevel {
                id: id@,
                owner_rid: owner_rid@,
                light_level: *light_level,
                changed: *changed,
                enabled: *enabled,
            },
            HueEvent::Raw { id, owner_rid, payload } => EventView::Raw {
                id: id.deep_view(),
                owner_rid: owner_rid.deep_view(),
                payload: payload@,
            },
        }
    }
}

impl DeepView for HueEvent {
    type V = EventView;

    open spec fn deep_view(&self) -> EventView {
        self@
    }
}

impl Clone for HueEvent {
    fn clone(&self) -> (copy: Self)
        ensures
            copy@ == self@,
    {
        match self {
            HueEvent::Motion { id, owner_rid, presence, changed, enabled } => HueEvent::Motion {
                id: id.clone(),
                owner_rid: owner_rid.clone(),
                presence: *presence,
                changed: *changed,
                enabled: *enabled,
            },
            HueEvent::Temperature {
                id,
                owner_rid,
                temperature,
                changed,
                enabled,
            } => HueEvent::Temperature {
                id: id.clone(),
                owner_rid: owner_rid.clone(),
                temperature: *temperature,
                changed: *changed,
                enabled: *enabled,
            },
            HueEvent::LightLevel {
                id,
                owner_rid,
                light_level,
                changed,
                enabled,
            } => HueEvent::LightLevel {
                id: id.clone(),
                owner_rid: owner_rid.clone(),
                light_level: *light_level,
                changed: *changed,
                enabled: *enabled,
            },
            HueEvent::Raw { id, owner_rid, payload } => HueEvent::Raw {
                id: copy_text(id),
                owner_rid: copy_text(owner_rid),
                payload: payload.clone(),
            },
        }
    }
}

/// The instant that a text denotes, where the text is there and is an
/// RFC 3339 date-and-time.
pub open spec fn instant_of(text: Option<Seq<char>>) -> Option<Timestamp> {
    match text {
        Some(s) => rfc3339_instant(s),
        None => None,
    }
}

/// A value that may be missing, or the default that stands for it.
pub open spec fn or_default<T>(value: Option<T>, default: T) -> T {
    match value {
        Some(v) => v,
        None => default,
    }
}

/// What [`UpdateFields`] reads from a JSON document.
pub open spec fn fields_of(doc: JsonModel) -> UpdateFieldsView {
    UpdateFieldsView {
        is_object: doc is Object,
        kind: text_of(doc.member("type"@)),
        id: text_of(doc.member("id"@)),
        id_v1: text_of(doc.member("id_v1"@)),
        owner_rid: text_of(member_of(doc.member("owner"@), "rid"@)),
        enabled: flag_of(doc.member("enabled"@)),
        has_enabled: doc.member("enabled"@) is Some,
        motion: match member_of(doc.member("motion"@), "motion_report"@) {
            Some(report) => Some(
                MotionReport {
                    motion: flag_of(report.member("motion"@)),
                    changed: instant_of(text_of(report.member("changed"@))),
                },
            ),
            None => None,
        },
        temperature: match member_of(doc.member("temperature"@), "temperature_report"@) {
            Some(report) => Some(
                TemperatureReport {
                    temperature: double_of(report.member("temperature"@)),
                    changed: instant_of(text_of(report.member("changed"@))),
                },
            ),
            None => None,
        },
        light: match member_of(doc.member("light"@), "light_level_report"@) {
            Some(report) => Some(
                LightLevelReport {
                    light_level: integer_of(report.member("light_level"@)),
                    changed: instant_of(text_of(report.member("changed"@))),
                },
            ),
            None => None,
        },
        payload: json_rendered(doc),
    }
}

/// The raw event that an update gives: none unless the update is an object.
pub open spec fn kept_raw(f: UpdateFieldsView) -> Option<EventView> {
    if f.is_object {
        Some(EventView::Raw { id: f.id, owner_rid: f.owner_rid, payload: f.payload })
    } else {
        None
    }
}

/// The event that an update decodes to. An update with a type, an id and the
/// report of its type is a sensor event; a missing owner reads as the empty
/// id, a missing flag `enabled` as true, a missing reading as false or zero,
/// and a missing or unreadable time of change as `now`. Any other update that
/// is an object is a raw event, and what is no object is no event.
pub open spec fn decoded(f: UpdateFieldsView, now: Timestamp) -> Option<EventView> {
    if f.kind is Some && f.id is Some {
        let id = f.id->0;
        let owner_rid = or_default(f.owner_rid, Seq::empty());
        let enabled = or_default(f.enabled, true);
        if f.kind->0 == "motion"@ && f.motion is Some {
            Some(
                EventView::Motion {
                    id,
                    owner_rid,
                    presence: or_default(f.motion->0.motion, false),
                    changed: or_default(f.motion->0.changed, now),
                    enabled,
                },
            )
        } else if f.kind->0 == "temperature"@ && f.temperature is Some {
            Some(
                EventView::Temperature {
                    id,
                    owner_rid,
                    temperature: or_default(f.temperature->0.temperature, 0u64),
                    changed: or_default(f.temperature->0.changed, now),
                    enabled,
                },
            )
        } else if f.kind->0 == "light_level"@ && f.light is Some {
            Some(
                EventView::LightLevel {
                    id,
                    owner_rid,
                    light_level: or_default(f.light->0.light_level, 0i64) as i32,
                    changed: or_default(f.light->0.changed, now),
                    enabled,
                },
            )
        } else {
            kept_raw(f)
        }
    } else {
        kept_raw(f)
    }
}

/// The time of change that a report gives under `changed`.
fn read_changed(report: &serde_json::Value) -> (at: Option<Timestamp>)
    ensures
        at == instant_of(text_of(json_model(*report).member("changed"@))),
{
    match member(report, "changed") {
        Some(c) => match as_text(c) {
            Some(s) => parse_rfc3339(s),
            None => None,
        },
        None => None,
    }
}

fn read_motion(v: &serde_json::Value) -> (r: Option<MotionReport>)
    ensures
        r == fields_of(json_model(*v)).motion,
{
    match member_at(v, "motion", "motion_report") {
        Some(report) => Some(
            MotionReport { motion: flag_at(report, "motion"), changed: read_changed(report) },
        ),
        None => None,
    }
}

fn read_temperature(v: &serde_json::Value) -> (r: Option<TemperatureReport>)
    ensures
        r == fields_of(json_model(*v)).temperature,
{
    match member_at(v, "temperature", "temperature_report") {
        Some(report) => {
            let temperature = match member(report, "temperature") {
                Some(t) => as_double(t),
                None => None,
            };
            Some(TemperatureReport { temperature, changed: read_changed(report) })
        },
        None => None,
    }
}

fn read_light(v: &serde_json::Value) -> (r: Option<LightLevelReport>)
    ensures
        r == fields_of(json_model(*v)).light,
{
    match member_at(v, "light", "light_level_report") {
        Some(report) => {
            let light_level = match member(report, "light_level") {
                Some(l) => as_integer(l),
                None => None,
            };
            Some(LightLevelReport { light_level, changed: read_changed(report) })
        },
        None => None,
    }
}

impl UpdateFields {
    /// Reads from a JSON document what the sensor model needs of an update.
    pub fn read(v: &serde_json::Value) -> (fields: UpdateFields)
        ensures
            fields@ == fields_of(json_model(*v)),
    {
        let owner_rid = match member_at(v, "owner", "rid") {
            Some(rid) => match as_text(rid) {
                Some(s) => Some(s.to_owned()),
                None => None,
            },
            None => None,
        };
        UpdateFields {
            is_object: is_object(v),
            kind: text_at(v, "type"),
            id: text_at(v, "id"),
            id_v1: text_at(v, "id_v1"),
            owner_rid,
            enabled: flag_at(v, "enabled"),
            has_enabled: member(v, "enabled").is_some(),
            motion: read_motion(v),
            temperature: read_temperature(v),
            light: read_light(v),
            payload: render(v),
        }
    }
}

impl HueEvent {
    /// The raw event of an update: none unless the update is an object.
    fn raw_from(fields: UpdateFields) -> (event: Option<HueEvent>)
        ensures
            event.deep_view() == kept_raw(fields@),
    {
        if fields.is_object {
            Some(
                HueEvent::Raw {
                    id: fields.id,
                    owner_rid: fields.owner_rid,
                    payload: fields.payload,
                },
            )
        } else {
            None
        }
    }

    /// Decodes what was read of an update. `now` stands for a time of change
    /// that the update does not give.
    pub fn from_fields(fields: UpdateFields, now: Timestamp) -> (event: Option<HueEvent>)
        ensures
            event.deep_view() == decoded(fields@, now),
    {
        let named = match (&fields.kind, &fields.id) {
            (Some(kind), Some(id)) => Some((kind.clone(), id.clone())),
            _ => None,
        };
        match named {
            Some((kind, id)) => {
                let owner_rid = match &fields.owner_rid {
                    Some(rid) => rid.clone(),
                    None => String::new(),
                };
                let enabled = match fields.enabled {
                    Some(e) => e,
                    None => true,
                };
                if same_text(kind.as_str(), "motion") && fields.motion.is_some() {
                    let report = fields.motion.unwrap();
                    Some(
                        HueEvent::Motion {
                            id,
                            owner_rid,
                            presence: match report.motion {
                                Some(m) => m,
                                None => false,
                            },
                            changed: match report.changed {
                                Some(at) => at,
                                None => now,
                            },
                            enabled,
                        },
                    )
                } else if same_text(kind.as_str(), "temperature") && fields.temperature.is_some() {
                    let report = fields.temperature.unwrap();
                    Some(
                        HueEvent::Temperature {
                            id,
                            owner_rid,
                            temperature: match report.temperature {
                                Some(t) => t,
                                None => 0,
                            },
                            changed: match report.changed {
                                Some(at) => at,
                                None => now,
                            },
                            enabled,
                        },
                    )
                } else if same_text(kind.as_str(), "light_level") && fields.light.is_some() {
                    let report = fields.light.unwrap();
                    let level: i64 = match report.light_level {
                        Some(l) => l,
                        None => 0,
                    };
                    Some(
                        HueEvent::LightLevel {
                            id,
                            owner_rid,
                            light_level: #[verifier::truncate]
                            (level as i32),
                            changed: match report.changed {
                                Some(at) => at,
                                None => now,
                            },
                            enabled,
                        },
                    )
                } else {
                    HueEvent::raw_from(fields)
                }
            },
            None => HueEvent::raw_from(fields),
        }
    }

    /// Decodes an update, with `now` for a time of change that it does not
    /// give.
    pub fn from_json_at(v: &serde_json::Value, now: Timestamp) -> (event: Option<HueEvent>)
        ensures
            event.deep_view() == decoded(fields_of(json_model(*v)), now),
    {
        HueEvent::from_fields(UpdateFields::read(v), now)
    }

    /// Decodes an update. A time of change that the update does not give is
    /// read from the clock.
    pub fn from_json(v: &serde_json::Value) -> (event: Option<HueEvent>)
        ensures
            exists|now: Timestamp| event.deep_view() == decoded(fields_of(json_model(*v)), now),
    {
        let now = current_time();
        let event = HueEvent::from_json_at(v, now);
        assert(event.deep_view() == decoded(fields_of(json_model(*v)), now));
        event
    }

    /// The device that owns the resource of the event, if the event names one.
    pub fn owner_rid(&self) -> (owner: Option<&str>)
        ensures
            owner.deep_view() == self@.owner(),
    {
        match self {
            HueEvent::Motion { owner_rid, .. } => Some(owner_rid.as_str()),
            HueEvent::Temperature { owner_rid, .. } => Some(owner_rid.as_str()),
            HueEvent::LightLevel { owner_rid, .. } => Some(owner_rid.as_str()),
            HueEvent::Raw { owner_rid, .. } => match owner_rid {
                Some(rid) => Some(rid.as_str()),
                None => None,
            },
        }
    }

    /// The resource of the event, if the event names one.
    pub fn resource_id(&self) -> (resource: Option<&str>)
        ensures
            resource.deep_view() == self@.resource(),
    {
        match self {
            HueEvent::Motion { id, .. } => Some(id.as_str()),
            HueEvent::Temperature { id, .. } => Some(id.as_str()),
            HueEvent::LightLevel { id, .. } => Some(id.as_str()),
            HueEvent::Raw { id, .. } => match id {
                Some(rid) => Some(rid.as_str()),
                None => None,
            },
        }
    }
}

/// The event that a text decodes to: none where the text is no JSON.
pub open spec fn decoded_text(text: Seq<char>, now: Timestamp) -> Option<EventView> {
    match json_parsed(text) {
        Some(doc) => decoded(fields_of(doc), now),
        None => None,
    }
}

/// Decodes one update of the stream from its text, with `now` for a time of
/// change that it does not give.
pub fn decode_event_at(text: &str, now: Timestamp) -> (event: Option<HueEvent>)
    ensures
        event.deep_view() == decoded_text(text@, now),
{
    match parse(text) {
        Some(v) => HueEvent::from_json_at(&v, now),
        None => None,
    }
}

/// Decodes one update of the stream from its text. A time of change that the
/// update does not give is read from the clock.
pub fn decode_event(text: &str) -> (event: Option<HueEvent>)
    ensures
        exists|now: Timestamp| event.deep_view() == decoded_text(text@, now),
{
    let now = current_time();
    let event = decode_event_at(text, now);
    assert(event.deep_view() == decoded_text(text@, now));
    event
}

} // verus!
