use sensor_gateway::alpha_sensor::{AlphaSensorPollError, Exchange};
use sensor_gateway::master::{BleMaster, InspectionOrder, PollVerdict};
use sensor_gateway::peripheral::{Characteristic, PeripheralRef, Uuid};
use sensor_gateway::registry::{InspectVerdict, PollReport};
use sensor_gateway::sensor::{Sensor, SensorFamily, SensorReading, SensorStatus, Timestamp};
use sensor_gateway::state::{AppState, SensorsState};

fn device(last: u8, name: &str) -> PeripheralRef {
    PeripheralRef { address: [last, 0x22, 0x33, 0x44, 0x55, 0x66], name: Some(name.to_string()) }
}

fn address(last: u8) -> [u8; 6] {
    [last, 0x22, 0x33, 0x44, 0x55, 0x66]
}

fn text(last: u8) -> String {
    format!("66:55:44:33:22:{:02X}", last)
}

fn sensor(last: u8, name: &str) -> Sensor {
    Sensor { family: SensorFamily::Alpha, address: text(last), name: Some(name.to_string()) }
}

fn endpoints() -> Option<Vec<Characteristic>> {
    Some(vec![Characteristic {
        start_handle: 1,
        end_handle: 3,
        value_handle: 2,
        uuid: Uuid::B16(0xFFE1),
        properties: 0x14,
    }])
}

fn hello() -> Option<Exchange> {
    Some(Exchange::Reply(vec![0x00, 0xF0, 0x14, 0x4D]))
}

fn at(secs: i64) -> Timestamp {
    Timestamp { secs, nanos: 0 }
}

fn report(exchange: Exchange, secs: i64) -> PollReport {
    PollReport { exchange, at: at(secs) }
}

fn bring_online(master: &mut BleMaster<AppState>, last: u8, name: &str) {
    master.on_discovered(device(last, name));
    let popped = match master.pop_and_inspect() {
        InspectionOrder::Probe(peripheral) => peripheral,
        other => panic!("expected a device to probe, got {:?}", other),
    };
    assert_eq!(master.inspect(popped, &endpoints(), &hello()), InspectVerdict::Admitted);
}

fn queued(master: &BleMaster<AppState>) -> Vec<[u8; 6]> {
    master.queue().iter().map(|peripheral| peripheral.address).collect()
}

fn active(master: &BleMaster<AppState>) -> Vec<[u8; 6]> {
    master.sessions().iter().map(|session| session.peripheral().address).collect()
}

fn never_both(master: &BleMaster<AppState>) -> bool {
    let known = queued(master);
    active(master).iter().all(|one| !known.contains(one))
}

#[test]
fn a_new_registry_is_empty() {
    let master = BleMaster::new(AppState::new());
    assert!(queued(&master).is_empty());
    assert!(active(&master).is_empty());
    assert_eq!(master.get_status(&sensor(1, "Weather")), SensorStatus::Offline);
}

#[test]
fn discovery_appends_to_the_queue_without_looking() {
    let mut master = BleMaster::new(AppState::new());
    master.on_discovered(device(1, "Weather A"));
    master.on_discovered(device(2, "Weather B"));
    master.on_discovered(device(1, "Weather A"));
    assert_eq!(queued(&master), vec![address(1), address(2), address(1)]);
    assert!(active(&master).is_empty());
}

#[test]
fn the_newest_discovery_is_inspected_first() {
    let mut master = BleMaster::new(AppState::new());
    master.on_discovered(device(1, "Weather A"));
    master.on_discovered(device(2, "Weather B"));
    match master.pop_and_inspect() {
        InspectionOrder::Probe(peripheral) => assert_eq!(peripheral.address, address(2)),
        other => panic!("unexpected order {:?}", other),
    }
    assert_eq!(queued(&master), vec![address(1)]);
    match master.pop_and_inspect() {
        InspectionOrder::Probe(peripheral) => assert_eq!(peripheral.address, address(1)),
        other => panic!("unexpected order {:?}", other),
    }
    assert!(matches!(master.pop_and_inspect(), InspectionOrder::Idle));
    assert!(queued(&master).is_empty());
}

#[test]
fn every_queued_device_is_probed_whatever_its_name() {
    let mut master = BleMaster::new(AppState::new());
    master.on_discovered(PeripheralRef { address: address(1), name: None });
    master.on_discovered(device(2, "Thermostat"));
    master.on_discovered(device(3, "Weather"));
    for last in [3u8, 2, 1] {
        match master.pop_and_inspect() {
            InspectionOrder::Probe(peripheral) => assert_eq!(peripheral.address, address(last)),
            other => panic!("unexpected order {:?}", other),
        }
    }
    assert!(matches!(master.pop_and_inspect(), InspectionOrder::Idle));
}

#[test]
fn a_device_is_admitted_whatever_its_name() {
    let mut master = BleMaster::new(AppState::new());
    let nameless = PeripheralRef { address: address(1), name: None };
    assert_eq!(master.inspect(nameless, &endpoints(), &hello()), InspectVerdict::Admitted);
    assert_eq!(master.inspect(device(2, "Radio"), &endpoints(), &hello()), InspectVerdict::Admitted);
    assert_eq!(active(&master), vec![address(1), address(2)]);
    assert!(queued(&master).is_empty());
    let unnamed = Sensor { family: SensorFamily::Alpha, address: text(1), name: None };
    assert_eq!(master.get_status(&unnamed), SensorStatus::Online);
    assert_eq!(master.get_status(&sensor(2, "Radio")), SensorStatus::Online);
    assert_eq!(BleMaster::<AppState>::sensor_from_alpha(&master.sessions()[0]), unnamed);
}

#[test]
fn a_successful_inspection_admits_the_sensor_and_marks_it_online() {
    let mut master = BleMaster::new(AppState::new());
    bring_online(&mut master, 1, "Weather A");
    assert!(queued(&master).is_empty());
    assert_eq!(active(&master), vec![address(1)]);
    assert_eq!(master.get_status(&sensor(1, "Weather A")), SensorStatus::Online);
    assert_eq!(master.get_status(&sensor(2, "Weather B")), SensorStatus::Offline);
    assert_eq!(master.state().get_status(&sensor(1, "Weather A")), SensorStatus::Online);
}

#[test]
fn status_goes_by_the_address_alone() {
    let mut master = BleMaster::new(AppState::new());
    bring_online(&mut master, 1, "Weather A");
    assert_eq!(master.get_status(&sensor(1, "Renamed")), SensorStatus::Online);
    let nameless = Sensor { family: SensorFamily::Alpha, address: text(1), name: None };
    assert_eq!(master.get_status(&nameless), SensorStatus::Online);
}

#[test]
fn a_failed_inspection_admits_nothing() {
    let mut master = BleMaster::new(AppState::new());
    let wrong = Some(Exchange::Reply(vec![0x00, 0xF0, 0x14, 0x4E]));
    let short = Some(Exchange::Reply(vec![0x00, 0xF0, 0x14]));
    let silent = Some(Exchange::Timeout);
    let other = Some(vec![Characteristic {
        start_handle: 1,
        end_handle: 3,
        value_handle: 2,
        uuid: Uuid::B16(0x2A00),
        properties: 0,
    }]);
    assert_eq!(master.inspect(device(1, "Weather"), &endpoints(), &wrong), InspectVerdict::Disconnect);
    assert_eq!(master.inspect(device(1, "Weather"), &endpoints(), &short), InspectVerdict::Disconnect);
    assert_eq!(master.inspect(device(1, "Weather"), &endpoints(), &silent), InspectVerdict::Disconnect);
    assert_eq!(master.inspect(device(1, "Weather"), &endpoints(), &None), InspectVerdict::Disconnect);
    assert_eq!(master.inspect(device(1, "Weather"), &None, &hello()), InspectVerdict::Disconnect);
    assert_eq!(master.inspect(device(1, "Weather"), &other, &hello()), InspectVerdict::Disconnect);
    assert_eq!(master.inspect(device(1, "Radio"), &endpoints(), &short), InspectVerdict::Disconnect);
    let nameless = PeripheralRef { address: address(1), name: None };
    assert_eq!(master.inspect(nameless, &other, &hello()), InspectVerdict::Disconnect);
    assert!(active(&master).is_empty());
    assert!(queued(&master).is_empty());
    assert_eq!(master.get_status(&sensor(1, "Weather")), SensorStatus::Offline);
}

#[test]
fn the_domain_sensor_carries_address_text_and_name() {
    let mut master = BleMaster::new(AppState::new());
    bring_online(&mut master, 0x0A, "Weather A");
    let domain = BleMaster::<AppState>::sensor_from_alpha(&master.sessions()[0]);
    assert_eq!(domain, sensor(0x0A, "Weather A"));
    assert_eq!(domain.address, "66:55:44:33:22:0A");
}

#[test]
fn a_loss_removes_the_session_and_every_queued_entry() {
    let mut master = BleMaster::new(AppState::new());
    bring_online(&mut master, 1, "Weather A");
    bring_online(&mut master, 2, "Weather B");
    master.on_discovered(device(3, "Weather C"));
    master.on_discovered(device(4, "Weather D"));
    master.on_discovered(device(3, "Weather C"));

    let lost = master.on_disconnect(address(3));
    assert!(lost.is_empty());
    assert_eq!(queued(&master), vec![address(4)]);
    assert_eq!(active(&master), vec![address(1), address(2)]);

    let lost = master.on_disconnect(address(1));
    assert_eq!(lost.len(), 1);
    assert_eq!(lost[0].sensor, sensor(1, "Weather A"));
    assert!(lost[0].was_online);
    assert_eq!(active(&master), vec![address(2)]);
    assert_eq!(queued(&master), vec![address(4)]);
    assert_eq!(master.get_status(&sensor(1, "Weather A")), SensorStatus::Offline);
    assert_eq!(master.get_status(&sensor(2, "Weather B")), SensorStatus::Online);
}

#[test]
fn a_second_report_of_the_same_loss_changes_nothing() {
    let mut master = BleMaster::new(AppState::new());
    bring_online(&mut master, 1, "Weather A");
    bring_online(&mut master, 2, "Weather B");
    master.on_discovered(device(1, "Weather A"));
    master.on_discovered(device(3, "Weather C"));

    let first = master.on_disconnect(address(1));
    assert_eq!(first.len(), 1);
    let queue_after_first = queued(&master);
    let active_after_first = active(&master);

    let second = master.on_disconnect(address(1));
    assert!(second.is_empty());
    assert_eq!(queued(&master), queue_after_first);
    assert_eq!(active(&master), active_after_first);
    assert_eq!(queued(&master), vec![address(3)]);
    assert_eq!(active(&master), vec![address(2)]);
    assert_eq!(master.get_status(&sensor(2, "Weather B")), SensorStatus::Online);
    assert_eq!(master.get_status(&sensor(1, "Weather A")), SensorStatus::Offline);
}

#[test]
fn a_loss_of_an_unknown_device_changes_nothing() {
    let mut master = BleMaster::new(AppState::new());
    bring_online(&mut master, 1, "Weather A");
    master.on_discovered(device(2, "Weather B"));
    assert!(master.on_disconnect(address(9)).is_empty());
    assert_eq!(queued(&master), vec![address(2)]);
    assert_eq!(active(&master), vec![address(1)]);
    assert_eq!(master.get_status(&sensor(1, "Weather A")), SensorStatus::Online);
}

#[test]
fn a_loss_reports_a_sensor_that_was_not_online() {
    let mut master = BleMaster::new(AppState::new());
    master.on_discovered(device(1, "Weather A"));
    let first = match master.pop_and_inspect() {
        InspectionOrder::Probe(peripheral) => peripheral,
        other => panic!("unexpected order {:?}", other),
    };
    master.inspect(first, &endpoints(), &hello());
    // A second session under the same address: only one of them can be online.
    master.inspect(device(1, "Weather A"), &endpoints(), &hello());
    let lost = master.on_disconnect(address(1));
    assert_eq!(lost.len(), 2);
    assert!(lost[0].was_online);
    assert!(!lost[1].was_online);
    assert!(active(&master).is_empty());
}

#[test]
fn a_poll_with_a_reading_yields_a_storage_job() {
    let mut master = BleMaster::new(AppState::new());
    bring_online(&mut master, 1, "Weather A");
    let verdict = master.try_poll_sensor(
        &master.sessions()[0],
        &report(Exchange::Reply(vec![0x00, 0xEC, 0x37, 0x00]), 1_700_000_000),
    );
    assert!(verdict.keeps_session());
    match verdict {
        PollVerdict::Store(job) => {
            assert_eq!(job.sensor, sensor(1, "Weather A"));
            assert_eq!(job.timestamp, at(1_700_000_000));
            assert_eq!(
                job.readings,
                vec![SensorReading::Temperature(-20), SensorReading::Humidity(55)]
            );
        }
        other => panic!("unexpected verdict {:?}", other),
    }
}

#[test]
fn a_poll_with_a_transient_failure_keeps_the_session() {
    let mut master = BleMaster::new(AppState::new());
    bring_online(&mut master, 1, "Weather A");
    let cases = vec![
        (Exchange::Timeout, AlphaSensorPollError::Timeout),
        (Exchange::Reply(vec![1, 0, 0, 0]), AlphaSensorPollError::SensorError),
        (Exchange::Reply(vec![0, 0, 0]), AlphaSensorPollError::UnexpectedResponse),
    ];
    for (exchange, expected) in cases {
        let verdict = master.try_poll_sensor(&master.sessions()[0], &report(exchange, 5));
        assert!(verdict.keeps_session());
        match verdict {
            PollVerdict::Skip(error) => assert_eq!(error, expected),
            other => panic!("unexpected verdict {:?}", other),
        }
    }
}

#[test]
fn a_poll_with_a_failed_send_ends_the_session() {
    let mut master = BleMaster::new(AppState::new());
    bring_online(&mut master, 1, "Weather A");
    let verdict = master.try_poll_sensor(&master.sessions()[0], &report(Exchange::SendFailed, 5));
    assert!(!verdict.keeps_session());
    assert!(matches!(verdict, PollVerdict::Requeue));
}

#[test]
fn a_sweep_requeues_the_sensor_whose_send_failed() {
    let mut master = BleMaster::new(AppState::new());
    bring_online(&mut master, 1, "Weather A");
    bring_online(&mut master, 2, "Weather B");
    bring_online(&mut master, 3, "Weather C");
    master.on_discovered(device(4, "Weather D"));

    let outcome = master.poll_all(&vec![
        report(Exchange::Reply(vec![0x00, 0x15, 0x28, 0x00]), 10),
        report(Exchange::SendFailed, 11),
        report(Exchange::Timeout, 12),
    ]);

    assert_eq!(active(&master), vec![address(1), address(3)]);
    assert_eq!(queued(&master), vec![address(4), address(2)]);
    assert_eq!(master.get_status(&sensor(1, "Weather A")), SensorStatus::Online);
    assert_eq!(master.get_status(&sensor(2, "Weather B")), SensorStatus::Offline);
    assert_eq!(master.get_status(&sensor(3, "Weather C")), SensorStatus::Online);
    assert!(never_both(&master));

    assert_eq!(outcome.dropped.len(), 1);
    assert_eq!(outcome.dropped[0].peripheral().address, address(2));
    assert_eq!(outcome.jobs.len(), 1);
    assert_eq!(outcome.jobs[0].sensor, sensor(1, "Weather A"));
    assert_eq!(outcome.jobs[0].timestamp, at(10));
    assert_eq!(
        outcome.jobs[0].readings,
        vec![SensorReading::Temperature(21), SensorReading::Humidity(40)]
    );

    // The requeued device is the next to be inspected.
    match master.pop_and_inspect() {
        InspectionOrder::Probe(peripheral) => {
            assert_eq!(peripheral.address, address(2));
            assert_eq!(peripheral.name.as_deref(), Some("Weather B"));
        }
        other => panic!("unexpected order {:?}", other),
    }
}

#[test]
fn a_sweep_with_fewer_reports_leaves_the_other_sessions_alone() {
    let mut master = BleMaster::new(AppState::new());
    bring_online(&mut master, 1, "Weather A");
    bring_online(&mut master, 2, "Weather B");
    let outcome = master.poll_all(&vec![report(Exchange::SendFailed, 1)]);
    assert_eq!(active(&master), vec![address(2)]);
    assert_eq!(queued(&master), vec![address(1)]);
    assert_eq!(outcome.dropped.len(), 1);
    assert!(outcome.jobs.is_empty());
    assert_eq!(master.get_status(&sensor(2, "Weather B")), SensorStatus::Online);
}

#[test]
fn a_sweep_with_more_reports_than_sessions_ignores_the_rest() {
    let mut master = BleMaster::new(AppState::new());
    bring_online(&mut master, 1, "Weather A");
    let outcome = master.poll_all(&vec![
        report(Exchange::Reply(vec![0, 1, 2, 3]), 1),
        report(Exchange::SendFailed, 2),
        report(Exchange::Reply(vec![0, 4, 5, 6]), 3),
    ]);
    assert_eq!(active(&master), vec![address(1)]);
    assert!(queued(&master).is_empty());
    assert_eq!(outcome.jobs.len(), 1);
    assert!(outcome.dropped.is_empty());
}

#[test]
fn a_sweep_over_nothing_does_nothing() {
    let mut master = BleMaster::new(AppState::new());
    let outcome = master.poll_all(&Vec::new());
    assert!(outcome.jobs.is_empty());
    assert!(outcome.dropped.is_empty());
    bring_online(&mut master, 1, "Weather A");
    let outcome = master.poll_all(&Vec::new());
    assert!(outcome.jobs.is_empty());
    assert_eq!(active(&master), vec![address(1)]);
}

#[test]
fn no_address_is_queued_and_active_through_a_life_cycle() {
    let mut master = BleMaster::new(AppState::new());
    assert!(never_both(&master));
    for last in 1..=4u8 {
        master.on_discovered(device(last, "Weather"));
        assert!(never_both(&master));
    }
    for _ in 0..3 {
        if let InspectionOrder::Probe(peripheral) = master.pop_and_inspect() {
            assert!(never_both(&master));
            master.inspect(peripheral, &endpoints(), &hello());
        }
        assert!(never_both(&master));
    }
    assert_eq!(active(&master), vec![address(4), address(3), address(2)]);
    master.poll_all(&vec![
        report(Exchange::SendFailed, 1),
        report(Exchange::Timeout, 1),
        report(Exchange::SendFailed, 1),
    ]);
    assert!(never_both(&master));
    assert_eq!(active(&master), vec![address(3)]);
    assert_eq!(queued(&master), vec![address(1), address(4), address(2)]);
    master.on_disconnect(address(4));
    assert!(never_both(&master));
    master.on_disconnect(address(3));
    assert!(never_both(&master));
    assert!(active(&master).is_empty());
    assert_eq!(queued(&master), vec![address(1), address(2)]);
}

#[test]
fn the_online_set_lists_an_address_once() {
    let mut state = AppState::new();
    state.add(sensor(1, "Weather A"));
    state.add(sensor(1, "Weather A again"));
    state.add(sensor(2, "Weather B"));
    assert_eq!(state.get_status(&sensor(1, "whatever")), SensorStatus::Online);
    assert_eq!(state.remove(&sensor(1, "Weather A")), Ok(()));
    assert_eq!(state.get_status(&sensor(1, "Weather A")), SensorStatus::Offline);
    assert_eq!(state.remove(&sensor(1, "Weather A")), Err(()));
    assert_eq!(state.get_status(&sensor(2, "Weather B")), SensorStatus::Online);
    assert_eq!(state.remove(&sensor(3, "Weather C")), Err(()));
}
