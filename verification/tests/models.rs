use hue_sensors::events::{HueEvent, LightLevelReport, MotionReport, UpdateFields};
use hue_sensors::models::{copy_history, CompositeSensor, LightData, MotionData, TemperatureData};
use hue_sensors::time::Timestamp;

const NEW_YEAR: i64 = 1_704_067_200;

fn at(secs: i64) -> Timestamp {
    Timestamp::new(secs, 0)
}

fn motion_event(presence: bool, enabled: bool, changed: Timestamp) -> HueEvent {
    HueEvent::Motion { id: "m1".to_string(), owner_rid: "d1".to_string(), presence, changed, enabled }
}

fn sensor_with_motion() -> CompositeSensor {
    let mut sensor = CompositeSensor::new("d1".to_string(), "Hall".to_string(), false);
    sensor.motion = Some(MotionData {
        id: "m1".to_string(),
        id_v1: Some("/sensors/5".to_string()),
        enabled: true,
        presence: false,
        last_updated: at(9000),
        history: vec![(at(9000), false)],
    });
    sensor
}

#[test]
fn a_new_sensor_is_switched_on_and_has_no_capability() {
    let sensor = CompositeSensor::new("d1".to_string(), "Hall".to_string(), true);
    assert_eq!(sensor.device_id, "d1");
    assert_eq!(sensor.name, "Hall");
    assert!(sensor.is_outdoor);
    assert!(sensor.enabled);
    assert!(sensor.motion.is_none() && sensor.temperature.is_none() && sensor.light.is_none());
    assert!(sensor.all_enabled());
}

#[test]
fn a_motion_event_sets_presence_and_enters_the_history() {
    let mut sensor = sensor_with_motion();
    let t = at(9500);
    sensor.apply_event_at(&motion_event(true, true, t), at(9600));
    let motion = sensor.motion.as_ref().unwrap();
    assert!(motion.presence);
    assert!(motion.enabled);
    assert_eq!(motion.last_updated, t);
    assert!(motion.history.contains(&(t, true)));
    assert_eq!(motion.history, vec![(at(9000), false), (t, true)]);
    assert_eq!(motion.id_v1, Some("/sensors/5".to_string()));
    assert!(sensor.enabled);
}

#[test]
fn the_first_event_creates_the_capability() {
    let mut sensor = CompositeSensor::new("d1".to_string(), "Hall".to_string(), false);
    let event = HueEvent::Temperature {
        id: "t1".to_string(),
        owner_rid: "d1".to_string(),
        temperature: 19.25f64.to_bits(),
        changed: at(50),
        enabled: true,
    };
    sensor.apply_event_at(&event, at(100_000));
    assert_eq!(
        sensor.temperature,
        Some(TemperatureData {
            id: "t1".to_string(),
            id_v1: None,
            enabled: true,
            temperature: 19.25f64.to_bits(),
            last_updated: at(50),
            history: vec![(at(50), 19.25f64.to_bits())],
        })
    );
    let light = HueEvent::LightLevel { id: "l1".to_string(), owner_rid: "d1".to_string(), light_level: 300, changed: at(60), enabled: true };
    sensor.apply_event_at(&light, at(100_000));
    assert_eq!(
        sensor.light,
        Some(LightData { id: "l1".to_string(), id_v1: None, enabled: true, light_level: 300, last_updated: at(60), history: vec![(at(60), 300)] })
    );
    let later = HueEvent::LightLevel { id: "other".to_string(), owner_rid: "d1".to_string(), light_level: 310, changed: at(99_990), enabled: true };
    sensor.apply_event_at(&later, at(100_000));
    let light = sensor.light.as_ref().unwrap();
    assert_eq!(light.id, "l1");
    assert_eq!(light.light_level, 310);
    assert_eq!(light.history, vec![(at(60), 300), (at(99_990), 310)]);
}

#[test]
fn a_disabled_capability_switches_the_sensor_off() {
    let mut sensor = sensor_with_motion();
    assert!(sensor.enabled);
    let event = HueEvent::LightLevel { id: "l1".to_string(), owner_rid: "d1".to_string(), light_level: 1, changed: at(9500), enabled: false };
    sensor.apply_event_at(&event, at(9600));
    assert!(!sensor.enabled);
    assert!(!sensor.all_enabled());
    let event = HueEvent::LightLevel { id: "l1".to_string(), owner_rid: "d1".to_string(), light_level: 1, changed: at(9510), enabled: true };
    sensor.apply_event_at(&event, at(9600));
    assert!(sensor.enabled);
    sensor.apply_event_at(&motion_event(true, false, at(9520)), at(9600));
    assert!(!sensor.enabled);
}

#[test]
fn a_raw_event_changes_nothing() {
    let mut sensor = sensor_with_motion();
    sensor.enabled = false;
    let before = sensor.clone();
    sensor.apply_event_at(&HueEvent::Raw { id: Some("m1".to_string()), owner_rid: Some("d1".to_string()), payload: "{}".to_string() }, at(9600));
    assert_eq!(sensor, before);
}

#[test]
fn the_same_event_twice_leaves_one_sample() {
    let mut sensor = sensor_with_motion();
    let event = motion_event(true, true, at(9500));
    sensor.apply_event_at(&event, at(9600));
    let once = sensor.clone();
    sensor.apply_event_at(&event, at(9600));
    assert_eq!(sensor, once);
    sensor.apply_event_at(&event, at(9700));
    let history = &sensor.motion.as_ref().unwrap().history;
    assert_eq!(history.iter().filter(|s| s.0 == at(9500)).count(), 1);
}

#[test]
fn the_window_ends_at_the_clock_not_at_the_event() {
    let mut sensor = sensor_with_motion();
    sensor.apply_event_at(&motion_event(true, true, at(9100)), at(20_000));
    assert_eq!(sensor.motion.as_ref().unwrap().history, vec![(at(9100), true)]);
    let now = chrono::Utc::now().timestamp();
    let mut live = sensor_with_motion();
    live.apply_event(&motion_event(true, true, at(now - 10)));
    live.apply_event(&motion_event(false, true, at(now - 5)));
    let motion = live.motion.as_ref().unwrap();
    assert_eq!(motion.history, vec![(at(9000), false), (at(now - 10), true), (at(now - 5), false)]);
    assert!(!motion.presence);
}

#[test]
fn fingerprint_joins_the_times_of_the_last_updates() {
    let mut sensor = CompositeSensor::new("d1".to_string(), "Hall".to_string(), false);
    assert_eq!(sensor.fingerprint(), "--");
    sensor.apply_event_at(&motion_event(true, true, at(NEW_YEAR)), at(NEW_YEAR));
    assert_eq!(sensor.fingerprint(), "2024-01-01T00:00:00+00:00--");
    let light = HueEvent::LightLevel { id: "l1".to_string(), owner_rid: "d1".to_string(), light_level: 1, changed: Timestamp::new(NEW_YEAR + 61, 500_000_000), enabled: true };
    sensor.apply_event_at(&light, at(NEW_YEAR + 100));
    assert_eq!(sensor.fingerprint(), "2024-01-01T00:00:00+00:00--2024-01-01T00:01:01.500+00:00");
    let before = sensor.fingerprint();
    sensor.apply_event_at(&motion_event(false, true, at(NEW_YEAR + 62)), at(NEW_YEAR + 100));
    assert_ne!(sensor.fingerprint(), before);
    let mut far = CompositeSensor::new("d".to_string(), "n".to_string(), false);
    far.apply_event_at(&motion_event(true, true, at(i64::MAX)), at(0));
    assert_eq!(far.fingerprint(), "--");
}

#[test]
fn receives_by_owner_or_by_known_resource() {
    let sensor = sensor_with_motion();
    assert!(sensor.receives(&motion_event(true, true, at(1))));
    let by_resource = HueEvent::Motion { id: "m1".to_string(), owner_rid: String::new(), presence: true, changed: at(1), enabled: true };
    assert!(sensor.receives(&by_resource));
    let by_owner = HueEvent::LightLevel { id: "l7".to_string(), owner_rid: "d1".to_string(), light_level: 0, changed: at(1), enabled: true };
    assert!(sensor.receives(&by_owner));
    let other = HueEvent::LightLevel { id: "l7".to_string(), owner_rid: "d2".to_string(), light_level: 0, changed: at(1), enabled: true };
    assert!(!sensor.receives(&other));
    assert!(sensor.receives(&HueEvent::Raw { id: Some("m1".to_string()), owner_rid: None, payload: String::new() }));
    assert!(sensor.receives(&HueEvent::Raw { id: None, owner_rid: Some("d1".to_string()), payload: String::new() }));
    assert!(!sensor.receives(&HueEvent::Raw { id: None, owner_rid: None, payload: String::new() }));
    assert!(!sensor.receives(&HueEvent::Raw { id: Some("d1".to_string()), owner_rid: Some("m1".to_string()), payload: String::new() }));
}

#[test]
fn update_from_json_replaces_the_capability_of_a_report() {
    let mut sensor = sensor_with_motion();
    let v: serde_json::Value = serde_json::from_str(
        r#"{"id":"m2","id_v1":"/sensors/8","enabled":false,"type":"motion",
            "motion":{"motion_report":{"changed":"2024-01-01T00:00:00Z","motion":true}}}"#,
    )
    .unwrap();
    sensor.update_from_json_at(&v, at(5));
    assert_eq!(
        sensor.motion,
        Some(MotionData {
            id: "m2".to_string(),
            id_v1: Some("/sensors/8".to_string()),
            enabled: false,
            presence: true,
            last_updated: at(NEW_YEAR),
            history: vec![(at(9000), false)],
        })
    );
    assert!(!sensor.enabled);
    let light: serde_json::Value = serde_json::from_str(r#"{"type":"light_level","light":{"light_level_report":{"light_level":77}}}"#).unwrap();
    sensor.update_from_json_at(&light, at(5));
    assert_eq!(
        sensor.light,
        Some(LightData { id: String::new(), id_v1: None, enabled: true, light_level: 77, last_updated: at(5), history: Vec::new() })
    );
    let mut live = sensor_with_motion();
    live.update_from_json(&v);
    assert_eq!(live.motion.as_ref().unwrap().last_updated, at(NEW_YEAR));
}

#[test]
fn update_from_json_without_a_report_only_sets_the_switch() {
    let mut sensor = sensor_with_motion();
    let off: serde_json::Value = serde_json::from_str(r#"{"id":"m1","type":"motion","enabled":false}"#).unwrap();
    sensor.update_from_json_at(&off, at(5));
    let motion = sensor.motion.as_ref().unwrap();
    assert!(!motion.enabled);
    assert_eq!(motion.last_updated, at(9000));
    assert!(!sensor.enabled);
    let silent: serde_json::Value = serde_json::from_str(r#"{"id":"m1","type":"motion"}"#).unwrap();
    sensor.enabled = true;
    sensor.update_from_json_at(&silent, at(5));
    assert!(!sensor.motion.as_ref().unwrap().enabled);
    assert!(!sensor.enabled);
    let absent: serde_json::Value = serde_json::from_str(r#"{"id":"t1","type":"temperature","enabled":false}"#).unwrap();
    sensor.update_from_json_at(&absent, at(5));
    assert!(sensor.temperature.is_none());
    let other: serde_json::Value = serde_json::from_str(r#"{"id":"b","type":"button","enabled":true}"#).unwrap();
    let before = sensor.clone();
    sensor.update_from_json_at(&other, at(5));
    assert_eq!(sensor, before);
}

#[test]
fn update_from_fields_on_plain_values() {
    let mut sensor = CompositeSensor::new("d1".to_string(), "Hall".to_string(), false);
    let fields = UpdateFields {
        is_object: true,
        kind: Some("motion".to_string()),
        id: Some("m1".to_string()),
        id_v1: None,
        owner_rid: None,
        enabled: None,
        has_enabled: false,
        motion: Some(MotionReport { motion: None, changed: Some(at(3)) }),
        temperature: None,
        light: Some(LightLevelReport { light_level: Some(9), changed: None }),
        payload: String::new(),
    };
    sensor.update_from_fields(&fields, at(5));
    assert_eq!(
        sensor.motion,
        Some(MotionData { id: "m1".to_string(), id_v1: None, enabled: true, presence: false, last_updated: at(3), history: Vec::new() })
    );
    assert!(sensor.light.is_none());
}

#[test]
fn copies_are_equal() {
    let sensor = sensor_with_motion();
    assert_eq!(sensor.clone(), sensor);
    let history = vec![(at(1), 2u8), (at(3), 4u8)];
    assert_eq!(copy_history(&history), history);
}
