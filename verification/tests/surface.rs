use sensor_gateway::api::{
    map_database_error_to_http, not_found, sensor_readings_after_time_utc, status,
    QUERY_BOUND_SHIFT_MILLIS,
};
use sensor_gateway::database::DatabaseError;
use sensor_gateway::master::BleMaster;
use sensor_gateway::peripheral::PeripheralRef;
use sensor_gateway::scheduler::{
    handle_event, LifecycleEvent, Scheduler, Step, Tick, DEFAULT_INSPECT_INTERVAL_SECS,
    DEFAULT_POLL_INTERVAL_SECS, EVENT_WAIT_SECS, NANOS_PER_SEC,
};
use sensor_gateway::sensor::Timestamp;
use sensor_gateway::state::AppState;

#[test]
fn storage_failures_have_their_answers() {
    let busy = map_database_error_to_http(DatabaseError::Busy);
    assert_eq!((busy.status, busy.body.as_str()), (503, "Database connection failed"));
    let missing = map_database_error_to_http(DatabaseError::NotFound);
    assert_eq!((missing.status, missing.body.as_str()), (404, "{}"));
    let other = map_database_error_to_http(DatabaseError::Other("disk full".to_string()));
    assert_eq!((other.status, other.body.as_str()), (500, "disk full"));
    let conflict = map_database_error_to_http(DatabaseError::Conflict);
    assert_eq!((conflict.status, conflict.body.as_str()), (500, "Unknown error"));
}

#[test]
fn the_fixed_answers() {
    let up = status();
    assert_eq!((up.status, up.body.as_str()), (200, "Server is up and running!"));
    let missing = not_found();
    assert_eq!(missing.status, 404);
    assert_eq!(
        missing.body,
        "<html><head><title>Not found</title><body><h1>404</h1></html>"
    );
}

#[test]
fn the_query_bound_lies_one_millisecond_later() {
    assert_eq!(QUERY_BOUND_SHIFT_MILLIS, 1);
    assert_eq!(
        sensor_readings_after_time_utc(Timestamp { secs: 0, nanos: 0 }),
        Some(Timestamp { secs: 0, nanos: 1_000_000 })
    );
    assert_eq!(
        sensor_readings_after_time_utc(Timestamp { secs: 1_700_000_000, nanos: 999_500_000 }),
        Some(Timestamp { secs: 1_700_000_001, nanos: 500_000 })
    );
    assert_eq!(
        sensor_readings_after_time_utc(Timestamp { secs: -1, nanos: 999_999_999 }),
        Some(Timestamp { secs: 0, nanos: 999_999 })
    );
}

#[test]
fn there_is_no_query_bound_beyond_the_calendar() {
    assert_eq!(sensor_readings_after_time_utc(Timestamp { secs: i64::MAX, nanos: 0 }), None);
    assert_eq!(sensor_readings_after_time_utc(Timestamp { secs: i64::MIN, nanos: 0 }), None);
    assert_eq!(sensor_readings_after_time_utc(Timestamp { secs: 0, nanos: 2_000_000_000 }), None);
}

#[test]
fn the_query_bound_agrees_with_the_calendar_library() {
    let start = chrono::DateTime::from_timestamp(1_431_648_000, 123_456_789).unwrap();
    let later = start + chrono::TimeDelta::milliseconds(1);
    assert_eq!(
        sensor_readings_after_time_utc(Timestamp { secs: 1_431_648_000, nanos: 123_456_789 }),
        Some(Timestamp { secs: later.timestamp(), nanos: later.timestamp_subsec_nanos() })
    );
}

#[test]
fn scheduler_defaults() {
    assert_eq!(DEFAULT_INSPECT_INTERVAL_SECS, 1);
    assert_eq!(DEFAULT_POLL_INTERVAL_SECS, 300);
    assert_eq!(EVENT_WAIT_SECS, 1);
    assert_eq!(NANOS_PER_SEC, 1_000_000_000);
    assert_eq!(
        Scheduler::with_defaults(42),
        Scheduler { inspect_interval_secs: 1, poll_interval_secs: 300, prev_inspect: 42, prev_poll: 42 }
    );
    assert_eq!(Scheduler::new(2, 3, 4), Scheduler {
        inspect_interval_secs: 2,
        poll_interval_secs: 3,
        prev_inspect: 4,
        prev_poll: 4
    });
}

#[test]
fn an_interval_has_passed_after_its_whole_seconds() {
    assert!(!Scheduler::elapsed(0, 999_999_999, 1));
    assert!(Scheduler::elapsed(0, 1_000_000_000, 1));
    assert!(Scheduler::elapsed(5, 1_000_000_005, 1));
    assert!(!Scheduler::elapsed(5, 1_000_000_004, 1));
    assert!(Scheduler::elapsed(7, 7, 0));
    assert!(!Scheduler::elapsed(7, 6, 0));
    assert!(!Scheduler::elapsed(u64::MAX, 0, 1));
    assert!(Scheduler::elapsed(0, u64::MAX, 18_446_744_073));
    assert!(!Scheduler::elapsed(0, u64::MAX, 18_446_744_074));
    assert!(!Scheduler::elapsed(0, 299_999_999_999, 300));
    assert!(Scheduler::elapsed(0, 300_000_000_000, 300));
}

#[test]
fn the_scheduler_says_what_is_due() {
    let second = NANOS_PER_SEC;
    let mut scheduler = Scheduler::with_defaults(0);
    assert_eq!(scheduler.tick(second / 2), Tick { inspect: false, poll: false });
    assert_eq!(scheduler.tick(second), Tick { inspect: true, poll: false });
    // The inspection stays due until its end is reported.
    assert_eq!(scheduler.tick(second + 1), Tick { inspect: true, poll: false });
    scheduler.inspection_done(second + 10);
    assert_eq!(scheduler.prev_inspect, second + 10);
    assert_eq!(scheduler.tick(2 * second + 9), Tick { inspect: false, poll: false });
    assert_eq!(scheduler.tick(2 * second + 10), Tick { inspect: true, poll: false });
    scheduler.inspection_done(300 * second);
    assert_eq!(scheduler.prev_poll, 0);
    assert_eq!(scheduler.tick(300 * second), Tick { inspect: false, poll: true });
    // The poll timer restarts when the sweep is due.
    assert_eq!(scheduler.prev_poll, 300 * second);
    assert_eq!(scheduler.tick(301 * second), Tick { inspect: true, poll: false });
    assert_eq!(scheduler.tick(600 * second), Tick { inspect: true, poll: true });
    assert_eq!(scheduler.prev_poll, 600 * second);
    assert_eq!(scheduler.prev_inspect, 300 * second);
}

#[test]
fn the_inspection_comes_before_the_sweep() {
    assert_eq!(Tick { inspect: true, poll: true }.steps(), vec![Step::Inspect, Step::Poll]);
    assert_eq!(Tick { inspect: true, poll: false }.steps(), vec![Step::Inspect]);
    assert_eq!(Tick { inspect: false, poll: true }.steps(), vec![Step::Poll]);
    assert!(Tick { inspect: false, poll: false }.steps().is_empty());
}

#[test]
fn radio_events_reach_the_registry() {
    let mut master = BleMaster::new(AppState::new());
    let device = PeripheralRef { address: [1, 2, 3, 4, 5, 6], name: Some("Weather".to_string()) };

    let outcome = handle_event(&mut master, LifecycleEvent::Discovered(Some(device.clone())));
    assert!(!outcome.rescan);
    assert!(outcome.lost.is_empty());
    assert_eq!(master.queue().len(), 1);

    let outcome = handle_event(&mut master, LifecycleEvent::Discovered(None));
    assert!(!outcome.rescan);
    assert_eq!(master.queue().len(), 1);

    let outcome = handle_event(&mut master, LifecycleEvent::Other);
    assert!(!outcome.rescan);
    assert_eq!(master.queue().len(), 1);

    let outcome = handle_event(&mut master, LifecycleEvent::Disconnected([9, 9, 9, 9, 9, 9]));
    assert!(outcome.rescan);
    assert_eq!(master.queue().len(), 1);

    let outcome = handle_event(&mut master, LifecycleEvent::Disconnected([1, 2, 3, 4, 5, 6]));
    assert!(outcome.rescan);
    assert!(outcome.lost.is_empty());
    assert!(master.queue().is_empty());
}
