use hue_sensors::client::{
    ClientEx, DeviceResource, GroupResource, LightLevelResource, LightResource, MotionReading, MotionResource,
    ResourceIdentifier, TemperatureResource,
};
use hue_sensors::events::{LightLevelReport, TemperatureReport};
use hue_sensors::models::{CompositeSensor, LightData, MotionData, TemperatureData};
use hue_sensors::names::NameMap;
use hue_sensors::time::Timestamp;

const NEW_YEAR: i64 = 1_704_067_200;

fn text(s: &str) -> Option<String> {
    Some(s.to_string())
}

fn rid(id: &str) -> ResourceIdentifier {
    ResourceIdentifier { rid: text(id), rtype: text("device") }
}

fn device(id: &str, name: &str, product: &str) -> DeviceResource {
    DeviceResource { id: text(id), name: text(name), product_name: text(product), services: Vec::new() }
}

fn motion(id: &str, owner: &str, presence: bool, changed: &str) -> MotionResource {
    MotionResource {
        id: text(id),
        id_v1: None,
        owner: Some(rid(owner)),
        enabled: Some(true),
        report: Some(MotionReading { motion: Some(presence), changed: text(changed) }),
    }
}

fn now() -> Timestamp {
    Timestamp::new(2_000_000_000, 0)
}

#[test]
fn event_stream_url_appends_the_stream_path() {
    let client = ClientEx::new("https://10.0.0.2".to_string());
    assert_eq!(client.base_url(), "https://10.0.0.2");
    assert_eq!(client.event_stream_url(), "https://10.0.0.2/eventstream/clip/v2");
}

#[test]
fn parse_date_reads_rfc_3339() {
    assert_eq!(ClientEx::parse_date(&text("2024-01-01T00:00:00Z")), Timestamp::new(NEW_YEAR, 0));
    assert_eq!(ClientEx::parse_date(&text("2024-01-01T02:00:00.000000001+02:00")), Timestamp::new(NEW_YEAR, 1));
    assert_eq!(ClientEx::parse_date(&text("1969-12-31T23:59:59Z")), Timestamp::new(-1, 0));
    assert_eq!(ClientEx::parse_date_or(&text("2024-01-01T00:00:00Z"), now()), Timestamp::new(NEW_YEAR, 0));
}

#[test]
fn parse_date_falls_back_where_there_is_no_date() {
    assert_eq!(ClientEx::parse_date_or(&None, now()), now());
    assert_eq!(ClientEx::parse_date_or(&text("2024-01-01"), now()), now());
    assert_eq!(ClientEx::parse_date_or(&text(""), now()), now());
    let before = chrono::Utc::now().timestamp();
    let read = ClientEx::parse_date(&text("soon"));
    let after = chrono::Utc::now().timestamp();
    assert!(before <= read.secs && read.secs <= after);
    assert!(read.nanos < 1_000_000_000);
    let read = ClientEx::parse_date(&None);
    assert!(before <= read.secs);
}

#[test]
fn get_owner_rid_reads_the_reference() {
    assert_eq!(ClientEx::get_owner_rid(&Some(rid("d1"))), text("d1"));
    assert_eq!(ClientEx::get_owner_rid(&Some(ResourceIdentifier { rid: None, rtype: text("device") })), None);
    assert_eq!(ClientEx::get_owner_rid(&None), None);
}

#[test]
fn insert_resource_names_names_the_resource_and_its_services() {
    let mut names = NameMap::new();
    let services = vec![rid("s1"), ResourceIdentifier { rid: None, rtype: None }, rid("s2")];
    ClientEx::insert_resource_names(&mut names, text("d1"), text("Hall"), &services);
    assert_eq!(names.len(), 3);
    assert_eq!(names.get("d1"), Some(&"Hall".to_string()));
    assert_eq!(names.get("s1"), Some(&"Hall".to_string()));
    assert_eq!(names.get("s2"), Some(&"Hall".to_string()));
    assert_eq!(names.get("s3"), None);
    ClientEx::insert_resource_names(&mut names, None, text("Nobody"), &services);
    ClientEx::insert_resource_names(&mut names, text("d2"), None, &services);
    assert_eq!(names.len(), 3);
    assert_eq!(names.get("s1"), Some(&"Hall".to_string()));
    ClientEx::insert_resource_names(&mut names, text("room"), text("Upstairs"), &vec![rid("s1")]);
    assert_eq!(names.len(), 4);
    assert_eq!(names.get("s1"), Some(&"Upstairs".to_string()));
}

#[test]
fn name_map_keeps_each_id_once() {
    let mut names = NameMap::new();
    names.insert("a".to_string(), "one".to_string());
    names.insert("b".to_string(), "two".to_string());
    names.insert("a".to_string(), "three".to_string());
    assert_eq!(names.len(), 2);
    assert_eq!(names.as_pairs(), &vec![("a".to_string(), "three".to_string()), ("b".to_string(), "two".to_string())]);
    assert_eq!(names.get("a"), Some(&"three".to_string()));
    assert_eq!(names.get(""), None);
}

#[test]
fn get_name_map_lets_later_kinds_override() {
    let devices = vec![DeviceResource { id: text("d1"), name: text("Hall sensor"), product_name: None, services: vec![rid("m1"), rid("light1")] }];
    let rooms = vec![GroupResource { id: text("r1"), name: text("Hall"), services: vec![rid("g1")] }];
    let zones = vec![
        GroupResource { id: text("z1"), name: text("Downstairs"), services: vec![rid("g1")] },
        GroupResource { id: text("z2"), name: None, services: vec![rid("g9")] },
    ];
    let lights = vec![
        LightResource { id: text("light1"), name: text("Lamp") },
        LightResource { id: text("light2"), name: None },
        LightResource { id: None, name: text("Ghost") },
    ];
    let homes = vec![GroupResource { id: text("h1"), name: text("ignored"), services: vec![rid("g1"), rid("hs")] }];
    let names = ClientEx::get_name_map(&devices, &rooms, &zones, &lights, &homes);
    assert_eq!(names.get("d1"), Some(&"Hall sensor".to_string()));
    assert_eq!(names.get("m1"), Some(&"Hall sensor".to_string()));
    assert_eq!(names.get("light1"), Some(&"Lamp".to_string()));
    assert_eq!(names.get("r1"), Some(&"Hall".to_string()));
    assert_eq!(names.get("z1"), Some(&"Downstairs".to_string()));
    assert_eq!(names.get("g1"), Some(&"Bridge Home".to_string()));
    assert_eq!(names.get("h1"), Some(&"Bridge Home".to_string()));
    assert_eq!(names.get("hs"), Some(&"Bridge Home".to_string()));
    assert_eq!(names.get("z2"), None);
    assert_eq!(names.get("g9"), None);
    assert_eq!(names.get("light2"), None);
    assert_eq!(names.len(), 8);
    assert_eq!(ClientEx::get_name_map(&Vec::new(), &Vec::new(), &Vec::new(), &Vec::new(), &Vec::new()).len(), 0);
}

#[test]
fn init_device_map_opens_one_entry_per_device() {
    let devices = vec![
        device("d1", "Hall", "Hue motion sensor"),
        DeviceResource { id: None, name: text("No id"), product_name: None, services: Vec::new() },
        DeviceResource { id: text("d2"), name: None, product_name: None, services: Vec::new() },
        device("d3", "Garden", "Hue OUTDOOR motion sensor"),
        DeviceResource { id: text("d4"), name: text("Plain"), product_name: None, services: Vec::new() },
        device("d1", "Hall again", "Hue Outdoor sensor"),
    ];
    let entries = ClientEx::init_device_map(&devices);
    assert_eq!(
        entries,
        vec![
            CompositeSensor::new("d1".to_string(), "Hall again".to_string(), true),
            CompositeSensor::new("d3".to_string(), "Garden".to_string(), true),
            CompositeSensor::new("d4".to_string(), "Plain".to_string(), false),
        ]
    );
}

#[test]
fn get_sensors_joins_by_owner_and_lists_outdoor_first_then_by_name() {
    let devices = vec![
        device("d1", "Kitchen", "Hue motion sensor"),
        device("d2", "Attic", "Hue motion sensor"),
        device("d3", "Yard", "Hue outdoor motion sensor"),
        device("d4", "Bridge", "Hue bridge"),
        device("d5", "Barn", "Outdoor sensor"),
    ];
    let motions = vec![
        motion("m1", "d1", true, "2024-01-01T00:00:00Z"),
        motion("m2", "d2", false, "not a date"),
        motion("m3", "d3", false, "2024-01-01T00:00:01Z"),
        motion("m9", "d9", true, "2024-01-01T00:00:00Z"),
        MotionResource { id: text("m5"), id_v1: None, owner: Some(rid("d5")), enabled: None, report: None },
        MotionResource { id: None, id_v1: None, owner: Some(rid("d4")), enabled: None, report: Some(MotionReading { motion: None, changed: None }) },
    ];
    let temperatures = vec![
        TemperatureResource {
            id: text("t1"),
            id_v1: text("/sensors/6"),
            owner: Some(rid("d1")),
            enabled: Some(false),
            report: Some(TemperatureReport { temperature: Some(20.5f64.to_bits()), changed: Some(Timestamp::new(NEW_YEAR, 0)) }),
        },
        TemperatureResource { id: text("t5"), id_v1: None, owner: Some(rid("d5")), enabled: None, report: Some(TemperatureReport { temperature: None, changed: None }) },
    ];
    let lights = vec![LightLevelResource {
        id: text("l3"),
        id_v1: None,
        owner: Some(rid("d3")),
        enabled: None,
        report: Some(LightLevelReport { light_level: Some(4_294_967_301), changed: None }),
    }];
    let sensors = ClientEx::get_sensors_at(&motions, &temperatures, &lights, &devices, now());
    let names: Vec<&str> = sensors.iter().map(|s| s.name.as_str()).collect();
    assert_eq!(names, vec!["Barn", "Yard", "Attic", "Kitchen"]);
    assert_eq!(
        sensors[0],
        CompositeSensor {
            device_id: "d5".to_string(),
            name: "Barn".to_string(),
            is_outdoor: true,
            enabled: true,
            motion: None,
            temperature: Some(TemperatureData { id: "t5".to_string(), id_v1: None, enabled: true, temperature: 0, last_updated: now(), history: Vec::new() }),
            light: None,
        }
    );
    assert_eq!(
        sensors[1],
        CompositeSensor {
            device_id: "d3".to_string(),
            name: "Yard".to_string(),
            is_outdoor: true,
            enabled: true,
            motion: Some(MotionData { id: "m3".to_string(), id_v1: None, enabled: true, presence: false, last_updated: Timestamp::new(NEW_YEAR + 1, 0), history: Vec::new() }),
            temperature: None,
            light: Some(LightData { id: "l3".to_string(), id_v1: None, enabled: true, light_level: 5, last_updated: now(), history: Vec::new() }),
        }
    );
    assert_eq!(sensors[2].motion.as_ref().unwrap().last_updated, now());
    assert_eq!(
        sensors[3],
        CompositeSensor {
            device_id: "d1".to_string(),
            name: "Kitchen".to_string(),
            is_outdoor: false,
            enabled: false,
            motion: Some(MotionData { id: "m1".to_string(), id_v1: None, enabled: true, presence: true, last_updated: Timestamp::new(NEW_YEAR, 0), history: Vec::new() }),
            temperature: Some(TemperatureData {
                id: "t1".to_string(),
                id_v1: text("/sensors/6"),
                enabled: false,
                temperature: 20.5f64.to_bits(),
                last_updated: Timestamp::new(NEW_YEAR, 0),
                history: Vec::new(),
            }),
            light: None,
        }
    );
}

#[test]
fn get_sensors_keeps_the_order_of_devices_that_the_listing_does_not_tell_apart() {
    let devices = vec![device("d2", "Same", "x"), device("d1", "Same", "x"), device("d3", "Same", "x"), device("d0", "Sam", "x"), device("d4", "a", "x"), device("d5", "Z", "x")];
    let motions: Vec<MotionResource> = ["d1", "d2", "d3", "d0", "d4", "d5"].iter().map(|d| motion("m", d, true, "2024-01-01T00:00:00Z")).collect();
    let sensors = ClientEx::get_sensors_at(&motions, &Vec::new(), &Vec::new(), &devices, now());
    let ids: Vec<&str> = sensors.iter().map(|s| s.device_id.as_str()).collect();
    assert_eq!(ids, vec!["d0", "d2", "d1", "d3", "d5", "d4"]);
}

#[test]
fn get_sensors_reads_the_clock_for_a_missing_time() {
    let devices = vec![device("d1", "Hall", "x")];
    let motions = vec![MotionResource { id: text("m1"), id_v1: None, owner: Some(rid("d1")), enabled: None, report: Some(MotionReading { motion: None, changed: None }) }];
    let before = chrono::Utc::now().timestamp();
    let sensors = ClientEx::get_sensors(&motions, &Vec::new(), &Vec::new(), &devices);
    assert_eq!(sensors.len(), 1);
    let m = sensors[0].motion.as_ref().unwrap();
    assert!(m.last_updated.secs >= before);
    assert!(m.enabled && !m.presence);
    assert!(ClientEx::get_sensors(&Vec::new(), &Vec::new(), &Vec::new(), &devices).is_empty());
}

#[test]
fn get_sensors_lists_each_device_once() {
    let devices = vec![device("d1", "Hall", "x"), device("d2", "Attic", "x"), device("d1", "Hall again", "outdoor"), device("d2", "Attic", "x")];
    let motions = vec![motion("m1", "d1", true, "2024-01-01T00:00:00Z"), motion("m2", "d2", true, "2024-01-01T00:00:00Z"), motion("m3", "d1", false, "2024-01-01T00:00:00Z")];
    let sensors = ClientEx::get_sensors_at(&motions, &Vec::new(), &Vec::new(), &devices, now());
    let ids: Vec<&str> = sensors.iter().map(|s| s.device_id.as_str()).collect();
    assert_eq!(ids, vec!["d1", "d2"]);
    assert_eq!(sensors[0].name, "Hall again");
    assert_eq!(sensors[0].motion.as_ref().unwrap().id, "m3");
}
