use hue_sensors::bus::{BusRead, EventBus};
use hue_sensors::ingest::{
    deliver_update, deliver_update_at, ingest_update, ingest_update_at, IngestAction, IngestEvent, IngestState,
    RECONNECT_DELAY_MS,
};
use hue_sensors::stream::updates_in_line;
use hue_sensors::cache::SensorsCache;
use hue_sensors::eventcache::EventCache;
use hue_sensors::models::CompositeSensor;
use hue_sensors::time::Timestamp;

#[test]
fn a_data_line_carries_the_updates_of_all_its_envelopes() {
    let line = r#"data: [{"creationtime":"2024-01-01T00:00:00Z","data":[{"id":"a","type":"motion"},{"id":"b"}],"type":"update"},{"data":[]},{"nothing":1},{"data":{"id":"x"}},{"data":[7,"s"]}]"#;
    assert_eq!(
        updates_in_line(line),
        vec![r#"{"id":"a","type":"motion"}"#.to_string(), r#"{"id":"b"}"#.to_string(), "7".to_string(), "\"s\"".to_string()]
    );
}

#[test]
fn other_lines_carry_nothing() {
    for line in ["", ": hi", "id: 17:0", "data:[{\"data\":[1]}]", "data: {\"data\":[1]}", "data: [{\"data\":[1]}", "data: ", " data: [{\"data\":[1]}]", "event: x"] {
        assert_eq!(updates_in_line(line), Vec::<String>::new());
    }
    assert_eq!(updates_in_line("data: [{\"data\":[1]}]"), vec!["1".to_string()]);
    assert_eq!(updates_in_line("data:  [ {\"data\" : [ {\"a\" : 1.0} ] } ] "), vec!["{\"a\":1.0}".to_string()]);
}

#[test]
fn the_loop_starts_by_opening_the_stream() {
    assert_eq!(IngestState::start(), (IngestState::Disconnected, IngestAction::OpenAfter(0)));
    assert_eq!(RECONNECT_DELAY_MS, 1000);
}

#[test]
fn the_loop_reconnects_after_a_second_for_ever() {
    let mut state = IngestState::Disconnected;
    for _ in 0..50 {
        let (next, action) = state.step(IngestEvent::OpenFailed);
        assert_eq!(next, IngestState::Disconnected);
        assert_eq!(action, IngestAction::OpenAfter(1000));
        state = next;
    }
    let (next, action) = state.step(IngestEvent::Opened);
    assert_eq!((next, action), (IngestState::Streaming, IngestAction::Read));
    let (next, action) = next.step(IngestEvent::Ended);
    assert_eq!((next, action), (IngestState::Disconnected, IngestAction::OpenAfter(1000)));
}

#[test]
fn a_line_is_delivered_while_streaming() {
    let line = "data: [{\"data\":[{\"id\":\"a\"}]}]".to_string();
    assert_eq!(
        IngestState::Streaming.step(IngestEvent::Line(line.clone())),
        (IngestState::Streaming, IngestAction::Deliver(vec!["{\"id\":\"a\"}".to_string()]))
    );
    assert_eq!(
        IngestState::Streaming.step(IngestEvent::Line("garbage".to_string())),
        (IngestState::Streaming, IngestAction::Deliver(Vec::new()))
    );
    assert_eq!(IngestState::Disconnected.step(IngestEvent::Line(line)), (IngestState::Disconnected, IngestAction::OpenAfter(1000)));
    assert_eq!(IngestState::Disconnected.step(IngestEvent::Ended), (IngestState::Disconnected, IngestAction::OpenAfter(1000)));
    assert_eq!(IngestState::Streaming.step(IngestEvent::Opened), (IngestState::Streaming, IngestAction::Read));
    assert_eq!(IngestState::Streaming.step(IngestEvent::OpenFailed), (IngestState::Streaming, IngestAction::Read));
}

#[test]
fn an_update_enters_the_replay_cache_and_the_aggregate() {
    let t0 = Timestamp::new(1_704_067_200, 0);
    let mut events = EventCache::new(30);
    let mut sensors = SensorsCache::new();
    let text = r#"{"id":"m1","owner":{"rid":"d1"},"type":"motion","motion":{"motion_report":{"changed":"2024-01-01T00:00:00Z","motion":true}}}"#;
    ingest_update_at(&mut events, &mut sensors, text, t0);
    assert_eq!(events.get_all_at(t0), vec![text.to_string()]);
    assert_eq!(sensors.lookup_at(t0), None);
    sensors.store_at(
        vec![CompositeSensor::new("d1".to_string(), "Hall".to_string(), false), CompositeSensor::new("d2".to_string(), "Attic".to_string(), false)],
        t0,
    );
    ingest_update_at(&mut events, &mut sensors, text, Timestamp::new(1_704_067_210, 0));
    ingest_update_at(&mut events, &mut sensors, "not json", Timestamp::new(1_704_067_211, 0));
    ingest_update_at(&mut events, &mut sensors, r#"{"id":"zz","type":"button"}"#, Timestamp::new(1_704_067_212, 0));
    assert_eq!(events.len(), 4);
    let list = sensors.lookup_at(Timestamp::new(1_704_067_220, 0)).unwrap();
    let motion = list[0].motion.as_ref().unwrap();
    assert!(motion.presence);
    assert_eq!(motion.history, vec![(t0, true)]);
    assert!(list[1].motion.is_none());
    let mut live_events = EventCache::new(30);
    let mut live = SensorsCache::new();
    ingest_update(&mut live_events, &mut live, text);
    assert_eq!(live_events.get_all(), vec![text.to_string()]);
}

#[test]
fn numbers_are_written_back_as_they_were_read() {
    let line = "data: [{\"data\":[9223372036854775808,9223372036854775809,9223372036854775807,-1,1.0,1,-0.0,9223372036854775808.0,18446744073709551615]}]";
    assert_eq!(
        updates_in_line(line),
        vec![
            "9223372036854775808".to_string(),
            "9223372036854775809".to_string(),
            "9223372036854775807".to_string(),
            "-1".to_string(),
            "1.0".to_string(),
            "1".to_string(),
            "-0.0".to_string(),
            "9.223372036854776e+18".to_string(),
            "18446744073709551615".to_string(),
        ]
    );
}

#[test]
fn an_update_is_published_after_it_entered_the_caches() {
    let t0 = Timestamp::new(1_704_067_200, 0);
    let mut events = EventCache::new(30);
    let mut sensors = SensorsCache::new();
    let bus = EventBus::new(8);
    let text = r#"{"id":"m1","owner":{"rid":"d1"},"type":"motion","motion":{"motion_report":{"changed":"2024-01-01T00:00:00Z","motion":true}}}"#;
    assert_eq!(deliver_update_at(&mut events, &mut sensors, &bus, text, t0), 0);
    sensors.store_at(vec![CompositeSensor::new("d1".to_string(), "Hall".to_string(), false)], t0);
    let mut subscription = bus.subscribe();
    assert_eq!(deliver_update_at(&mut events, &mut sensors, &bus, text, t0), 1);
    assert_eq!(deliver_update_at(&mut events, &mut sensors, &bus, "no json", t0), 1);
    assert_eq!(subscription.poll(), BusRead::Event(text.to_string()));
    assert_eq!(subscription.poll(), BusRead::Event("no json".to_string()));
    assert_eq!(subscription.poll(), BusRead::Empty);
    assert_eq!(events.get_all_at(t0), vec![text.to_string(), text.to_string(), "no json".to_string()]);
    assert!(sensors.lookup_at(t0).unwrap()[0].motion.as_ref().unwrap().presence);
    assert_eq!(deliver_update(&mut events, &mut sensors, &bus, "live"), 1);
    assert_eq!(subscription.poll(), BusRead::Event("live".to_string()));
    assert_eq!(events.len(), 1);
}
