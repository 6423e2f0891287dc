use hue_sensors::cache::{
    apply_to_all, backfill_at, copy_sensors, get_sensors_cached, get_sensors_cached_at, on_fetched, on_fetched_at,
    refresh_sensors, refresh_sensors_at, SensorsCache, CACHE_TTL_SECS,
};
use hue_sensors::eventcache::EventCache;
use hue_sensors::events::HueEvent;
use hue_sensors::models::CompositeSensor;
use hue_sensors::time::Timestamp;

const T0: i64 = 1_704_067_200;

fn at(secs: i64) -> Timestamp {
    Timestamp::new(secs, 0)
}

fn list() -> Vec<CompositeSensor> {
    vec![CompositeSensor::new("d1".to_string(), "Hall".to_string(), false), CompositeSensor::new("d2".to_string(), "Attic".to_string(), false)]
}

fn motion_text(owner: &str, presence: bool, changed: &str) -> String {
    format!(
        r#"{{"id":"m-{}","owner":{{"rid":"{}"}},"type":"motion","motion":{{"motion_report":{{"changed":"{}","motion":{}}}}}}}"#,
        owner, owner, changed, presence
    )
}

#[test]
fn time_to_live_is_five_minutes() {
    assert_eq!(CACHE_TTL_SECS, 300);
}

#[test]
fn a_list_is_served_until_the_time_to_live_has_passed() {
    let mut cache = SensorsCache::new();
    assert_eq!(cache.lookup_at(at(T0)), None);
    cache.store_at(list(), at(T0));
    assert_eq!(cache.lookup_at(at(T0)), Some(list()));
    assert_eq!(cache.lookup_at(at(T0 + 299)), Some(list()));
    assert_eq!(cache.lookup_at(Timestamp::new(T0 + 299, 999_999_999)), Some(list()));
    assert_eq!(cache.lookup_at(at(T0 + 300)), None);
    assert_eq!(cache.lookup_at(at(T0 + 10_000)), None);
    assert_eq!(cache.lookup_at(at(T0 - 50)), Some(list()));
    cache.store_at(Vec::new(), Timestamp::new(T0, 5));
    assert_eq!(cache.lookup_at(Timestamp::new(T0 + 300, 4)), Some(Vec::new()));
    assert_eq!(cache.lookup_at(Timestamp::new(T0 + 300, 5)), None);
}

#[test]
fn two_reads_in_the_window_need_one_fetch_and_one_after_it_needs_another() {
    let mut cache = SensorsCache::new();
    let events = EventCache::new(30);
    let mut fetches = 0;
    for read in [T0, T0 + 100, T0 + 299, T0 + 300, T0 + 301, T0 + 599, T0 + 600] {
        if get_sensors_cached_at(&cache, &events, at(read)).is_none() {
            fetches += 1;
            let served = refresh_sensors_at(&mut cache, &events, list(), at(read));
            assert_eq!(served, list());
        }
        let expected = if read < T0 + 300 { 1 } else if read < T0 + 600 { 2 } else { 3 };
        assert_eq!(fetches, expected);
    }
}

#[test]
fn a_read_replays_the_replay_cache_on_a_copy() {
    let mut cache = SensorsCache::new();
    let mut events = EventCache::new(30);
    events.add_at(motion_text("d1", true, "2024-01-01T00:00:00Z"), at(T0));
    events.add_at("broken".to_string(), at(T0 + 1));
    events.add_at(motion_text("d1", false, "2024-01-01T00:00:05Z"), at(T0 + 5));
    events.add_at(motion_text("d3", true, "2024-01-01T00:00:06Z"), at(T0 + 6));
    let served = refresh_sensors_at(&mut cache, &events, list(), at(T0 + 10));
    let motion = served[0].motion.as_ref().unwrap();
    assert!(!motion.presence);
    assert_eq!(motion.id, "m-d1");
    assert_eq!(motion.history, vec![(at(T0), true), (at(T0 + 5), false)]);
    assert!(served[1].motion.is_none());
    assert_eq!(cache.lookup_at(at(T0 + 10)), Some(list()));
    let again = get_sensors_cached_at(&cache, &events, at(T0 + 20)).unwrap();
    assert_eq!(again, served);
    let late = get_sensors_cached_at(&cache, &events, Timestamp::new(T0 + 309, 0));
    assert_eq!(late, Some(served));
    assert_eq!(get_sensors_cached_at(&cache, &events, at(T0 + 310)), None);
}

#[test]
fn the_clock_decides_freshness_without_a_given_time() {
    let mut cache = SensorsCache::new();
    let mut events = EventCache::new(30);
    assert_eq!(get_sensors_cached(&cache, &events), None);
    events.add(motion_text("d2", true, "2024-01-01T00:00:00Z"));
    let served = refresh_sensors(&mut cache, &events, list());
    assert!(served[1].motion.as_ref().unwrap().presence);
    assert_eq!(get_sensors_cached(&cache, &events), Some(served));
    cache.store_at(list(), at(T0));
    assert_eq!(get_sensors_cached(&cache, &events), None);
}

#[test]
fn an_event_goes_to_the_sensors_it_is_for() {
    let mut sensors = list();
    let event = HueEvent::LightLevel { id: "l1".to_string(), owner_rid: "d2".to_string(), light_level: 9, changed: at(T0), enabled: false };
    apply_to_all(&mut sensors, &event, at(T0));
    assert!(sensors[0].light.is_none());
    assert!(sensors[0].enabled);
    assert_eq!(sensors[1].light.as_ref().unwrap().light_level, 9);
    assert!(!sensors[1].enabled);
    let by_resource = HueEvent::LightLevel { id: "l1".to_string(), owner_rid: String::new(), light_level: 11, changed: at(T0 + 1), enabled: true };
    apply_to_all(&mut sensors, &by_resource, at(T0 + 1));
    assert_eq!(sensors[1].light.as_ref().unwrap().history, vec![(at(T0), 9), (at(T0 + 1), 11)]);
    assert!(sensors[1].enabled);
    let mut twins = vec![CompositeSensor::new("d".to_string(), "a".to_string(), false), CompositeSensor::new("d".to_string(), "b".to_string(), false)];
    let event = HueEvent::Motion { id: "m".to_string(), owner_rid: "d".to_string(), presence: true, changed: at(T0), enabled: true };
    apply_to_all(&mut twins, &event, at(T0));
    assert!(twins[0].motion.is_some() && twins[1].motion.is_some());
}

#[test]
fn the_cached_list_takes_in_live_events() {
    let mut cache = SensorsCache::new();
    let event = HueEvent::Motion { id: "m".to_string(), owner_rid: "d1".to_string(), presence: true, changed: at(T0 + 3), enabled: true };
    cache.apply_at(&event, at(T0 + 3));
    assert_eq!(cache.lookup_at(at(T0 + 3)), None);
    cache.store_at(list(), at(T0));
    cache.apply_at(&event, at(T0 + 3));
    let served = cache.lookup_at(at(T0 + 299)).unwrap();
    assert!(served[0].motion.as_ref().unwrap().presence);
    assert_eq!(cache.lookup_at(at(T0 + 300)), None);
}

#[test]
fn backfill_and_copy() {
    let mut sensors = list();
    backfill_at(&mut sensors, &vec![motion_text("d2", true, "2024-01-01T00:00:00Z"), "[]".to_string()], at(T0));
    assert!(sensors[1].motion.as_ref().unwrap().presence);
    assert_eq!(copy_sensors(&sensors), sensors);
    let mut untouched = list();
    backfill_at(&mut untouched, &Vec::new(), at(T0));
    assert_eq!(untouched, list());
}

#[test]
fn a_failed_fetch_hands_the_error_on_and_discards_the_expired_list() {
    let mut cache = SensorsCache::new();
    let events = EventCache::new(30);
    cache.store_at(list(), at(T0));
    assert_eq!(get_sensors_cached_at(&cache, &events, at(T0 + 300)), None);
    let failed: Result<Vec<CompositeSensor>, String> = Err("bridge unreachable".to_string());
    assert_eq!(on_fetched_at(&mut cache, &events, failed, at(T0 + 300)), Err("bridge unreachable".to_string()));
    assert_eq!(cache.lookup_at(at(T0 + 300)), None);
    assert_eq!(cache.lookup_at(at(T0 + 10)), None);
    assert_eq!(cache.lookup_at(at(T0)), None);
    assert_eq!(get_sensors_cached_at(&cache, &events, at(T0 + 301)), None);
    let fetched: Result<Vec<CompositeSensor>, String> = Ok(list());
    assert_eq!(on_fetched_at(&mut cache, &events, fetched, at(T0 + 301)), Ok(list()));
    assert_eq!(cache.lookup_at(at(T0 + 600)), Some(list()));
}

#[test]
fn a_failed_fetch_leaves_a_fresh_list() {
    let mut cache = SensorsCache::new();
    let events = EventCache::new(30);
    cache.store_at(list(), at(T0));
    let failed: Result<Vec<CompositeSensor>, u8> = Err(7);
    assert_eq!(on_fetched_at(&mut cache, &events, failed, at(T0 + 299)), Err(7));
    assert_eq!(cache.lookup_at(at(T0 + 299)), Some(list()));
    cache.discard_expired_at(at(T0 + 299));
    assert_eq!(cache.lookup_at(at(T0 + 299)), Some(list()));
    cache.discard_expired_at(at(T0 + 300));
    assert_eq!(cache.lookup_at(at(T0)), None);
    let mut empty = SensorsCache::new();
    empty.discard_expired_at(at(T0));
    assert_eq!(empty.lookup_at(at(T0)), None);
}

#[test]
fn the_clock_settles_a_fetch_without_a_given_time() {
    let mut cache = SensorsCache::new();
    let events = EventCache::new(30);
    cache.store_at(list(), at(T0));
    let failed: Result<Vec<CompositeSensor>, u8> = Err(1);
    assert_eq!(on_fetched(&mut cache, &events, failed), Err(1));
    assert_eq!(cache.lookup_at(at(T0)), None);
    let fetched: Result<Vec<CompositeSensor>, u8> = Ok(list());
    assert_eq!(on_fetched(&mut cache, &events, fetched), Ok(list()));
    assert_eq!(get_sensors_cached(&cache, &events), Some(list()));
    cache.discard_expired();
    assert_eq!(get_sensors_cached(&cache, &events), Some(list()));
    cache.store_at(list(), at(T0));
    cache.discard_expired();
    assert_eq!(cache.lookup_at(at(T0)), None);
}
