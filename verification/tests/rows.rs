use sensor_gateway::database::DatabaseError;
use sensor_gateway::schema::{ReadingDTO, SensorDTO};
use sensor_gateway::sensor::{
    ReadingFields, Sensor, SensorFamily, SensorReading, Timestamp, TimestampedSensorReading,
};
use sensor_gateway::sqlite_database::{
    add_reading, classify_refusal, connection_or_busy, create_sensor_if_not_exists,
    find_sensor_map_err, finish_create_sensor, map_readings, map_sensors, sql_error_to_db_error,
    to_reading, to_sensor, CreateStep, SqlError, SqlErrorKind,
};

fn at(secs: i64) -> Timestamp {
    Timestamp { secs, nanos: 500 }
}

fn row(kind: &str, value: i32) -> ReadingDTO {
    ReadingDTO { id: 1, sensor: 7, timestamp: at(100), kind: kind.to_string(), value }
}

fn failure(kind: SqlErrorKind, message: &str) -> SqlError {
    SqlError { kind, message: message.to_string(), debug: format!("Debug({})", message) }
}

#[test]
fn rows_are_read_by_their_kind() {
    assert_eq!(
        to_reading(&row("T", -20)),
        TimestampedSensorReading { timestamp: at(100), reading: SensorReading::Temperature(-20) }
    );
    assert_eq!(to_reading(&row("H", 55)).reading, SensorReading::Humidity(55));
    assert_eq!(to_reading(&row("?", 1)).reading, SensorReading::Unknown);
    assert_eq!(to_reading(&row("", 1)).reading, SensorReading::Unknown);
    assert_eq!(to_reading(&row("t", 1)).reading, SensorReading::Unknown);
    assert_eq!(to_reading(&row("TT", 1)).reading, SensorReading::Unknown);
    assert_eq!(to_reading(&row("HT", 1)).reading, SensorReading::Unknown);
}

#[test]
fn a_humidity_row_keeps_the_low_eight_bits() {
    assert_eq!(to_reading(&row("H", 300)).reading, SensorReading::Humidity(44));
    assert_eq!(to_reading(&row("H", 256)).reading, SensorReading::Humidity(0));
    assert_eq!(to_reading(&row("H", 255)).reading, SensorReading::Humidity(255));
    assert_eq!(to_reading(&row("H", -1)).reading, SensorReading::Humidity(255));
    assert_eq!(to_reading(&row("T", 300)).reading, SensorReading::Temperature(300));
}

#[test]
fn rows_are_read_in_order() {
    let rows = vec![row("T", 1), row("H", 2), row("x", 3)];
    assert_eq!(
        map_readings(rows),
        vec![
            TimestampedSensorReading { timestamp: at(100), reading: SensorReading::Temperature(1) },
            TimestampedSensorReading { timestamp: at(100), reading: SensorReading::Humidity(2) },
            TimestampedSensorReading { timestamp: at(100), reading: SensorReading::Unknown },
        ]
    );
    assert!(map_readings(Vec::new()).is_empty());
}

#[test]
fn sensor_rows_become_alpha_sensors() {
    let named = SensorDTO { id: 3, address: "AA".to_string(), name: Some("Weather".to_string()) };
    let plain = SensorDTO { id: 4, address: "BB".to_string(), name: None };
    assert_eq!(
        to_sensor(&named),
        Sensor {
            family: SensorFamily::Alpha,
            address: "AA".to_string(),
            name: Some("Weather".to_string())
        }
    );
    let all = map_sensors(vec![named, plain]);
    assert_eq!(all.len(), 2);
    assert_eq!(all[0].address, "AA");
    assert_eq!(all[1], Sensor { family: SensorFamily::Alpha, address: "BB".to_string(), name: None });
    assert!(map_sensors(Vec::new()).is_empty());
}

#[test]
fn readings_become_rows_and_read_back() {
    let temperature = add_reading(7, at(5), &SensorReading::Temperature(-20)).unwrap();
    assert_eq!(temperature.sensor, 7);
    assert_eq!(temperature.timestamp, at(5));
    assert_eq!(temperature.kind, "T");
    assert_eq!(temperature.value, -20);
    let humidity = add_reading(8, at(6), &SensorReading::Humidity(255)).unwrap();
    assert_eq!(humidity.kind, "H");
    assert_eq!(humidity.value, 255);
    assert!(add_reading(7, at(5), &SensorReading::Unknown).is_none());

    let stored = ReadingDTO {
        id: 1,
        sensor: humidity.sensor,
        timestamp: humidity.timestamp,
        kind: humidity.kind.to_string(),
        value: humidity.value,
    };
    assert_eq!(
        to_reading(&stored),
        TimestampedSensorReading { timestamp: at(6), reading: SensorReading::Humidity(255) }
    );
}

#[test]
fn a_locked_store_is_busy_whatever_the_case_of_the_message() {
    let error = failure(SqlErrorKind::DatabaseError, "Database Is LOCKED");
    assert!(matches!(sql_error_to_db_error(error), DatabaseError::Busy));
    let error = failure(SqlErrorKind::DatabaseError, "error: database is locked (5)");
    assert!(matches!(sql_error_to_db_error(error), DatabaseError::Busy));
}

#[test]
fn a_row_that_is_not_unique_is_a_conflict() {
    let error = failure(SqlErrorKind::DatabaseError, "column address IS NOT UNIQUE");
    assert!(matches!(sql_error_to_db_error(error), DatabaseError::Conflict));
}

#[test]
fn a_locked_store_wins_over_a_conflict() {
    let error = failure(SqlErrorKind::DatabaseError, "is not unique; database is locked");
    assert!(matches!(sql_error_to_db_error(error), DatabaseError::Busy));
}

#[test]
fn another_refusal_is_passed_on_with_its_description() {
    let error = failure(SqlErrorKind::DatabaseError, "no such table");
    match sql_error_to_db_error(error) {
        DatabaseError::Other(text) => assert_eq!(text, "Debug(no such table)"),
        other => panic!("unexpected class {:?}", other),
    }
}

#[test]
fn a_nested_transaction_is_busy() {
    let error = failure(SqlErrorKind::AlreadyInTransaction, "whatever");
    assert!(matches!(sql_error_to_db_error(error), DatabaseError::Busy));
}

#[test]
fn other_failures_are_passed_on_with_their_message() {
    for kind in [SqlErrorKind::NotFound, SqlErrorKind::Other] {
        match sql_error_to_db_error(failure(kind, "Database Is Locked")) {
            DatabaseError::Other(text) => assert_eq!(text, "Database Is Locked"),
            other => panic!("unexpected class {:?}", other),
        }
    }
}

#[test]
fn a_refusal_is_classified_from_the_lowered_message_as_given() {
    assert!(matches!(
        classify_refusal("database is locked", "d".to_string()),
        DatabaseError::Busy
    ));
    assert!(matches!(classify_refusal("x is not unique", "d".to_string()), DatabaseError::Conflict));
    match classify_refusal("DATABASE IS LOCKED", "d".to_string()) {
        DatabaseError::Other(text) => assert_eq!(text, "d"),
        other => panic!("unexpected class {:?}", other),
    }
    match classify_refusal("", "d".to_string()) {
        DatabaseError::Other(text) => assert_eq!(text, "d"),
        other => panic!("unexpected class {:?}", other),
    }
}

#[test]
fn a_failed_lookup_is_not_found_or_passed_on() {
    assert!(matches!(
        find_sensor_map_err(failure(SqlErrorKind::NotFound, "Record not found")),
        DatabaseError::NotFound
    ));
    for kind in
        [SqlErrorKind::DatabaseError, SqlErrorKind::AlreadyInTransaction, SqlErrorKind::Other]
    {
        match find_sensor_map_err(failure(kind, "database is locked")) {
            DatabaseError::Other(text) => assert_eq!(text, "database is locked"),
            other => panic!("unexpected class {:?}", other),
        }
    }
}

#[test]
fn no_connection_means_busy() {
    assert!(matches!(connection_or_busy(), DatabaseError::Busy));
}

#[test]
fn a_sensor_is_inserted_only_if_the_lookup_found_none() {
    let sensor = Sensor {
        family: SensorFamily::Alpha,
        address: "66:55:44:33:22:11".to_string(),
        name: Some("Weather A".to_string()),
    };
    assert!(matches!(create_sensor_if_not_exists(&sensor, Ok(())), CreateStep::Exists));
    match create_sensor_if_not_exists(&sensor, Err(failure(SqlErrorKind::NotFound, "none"))) {
        CreateStep::Insert(new_row) => {
            assert_eq!(new_row.address, "66:55:44:33:22:11");
            assert_eq!(new_row.name.as_deref(), Some("Weather A"));
        }
        other => panic!("unexpected step {:?}", other),
    }
    match create_sensor_if_not_exists(
        &sensor,
        Err(failure(SqlErrorKind::DatabaseError, "database is locked")),
    ) {
        CreateStep::Fail(DatabaseError::Other(text)) => assert_eq!(text, "database is locked"),
        other => panic!("unexpected step {:?}", other),
    }
}

#[test]
fn making_a_sensor_known_ends_with_whether_it_was_inserted() {
    assert!(matches!(finish_create_sensor(None), Ok(false)));
    assert!(matches!(finish_create_sensor(Some(Ok(()))), Ok(true)));
    assert!(matches!(
        finish_create_sensor(Some(Err(failure(SqlErrorKind::DatabaseError, "Database is Locked")))),
        Err(DatabaseError::Busy)
    ));
    assert!(matches!(
        finish_create_sensor(Some(Err(failure(SqlErrorKind::DatabaseError, "is not unique")))),
        Err(DatabaseError::Conflict)
    ));
}

#[test]
fn readings_are_written_out_with_kind_and_value() {
    let written = |reading| TimestampedSensorReading { timestamp: at(1), reading }.serialize();
    assert_eq!(
        written(SensorReading::Temperature(-20)),
        ReadingFields { kind: 'T', value: Some(-20) }
    );
    assert_eq!(written(SensorReading::Humidity(255)), ReadingFields { kind: 'H', value: Some(255) });
    assert_eq!(written(SensorReading::Unknown), ReadingFields { kind: '?', value: None });
    assert_eq!(SensorReading::Temperature(1).serialize_kind(), 'T');
    assert_eq!(SensorReading::Humidity(1).serialize_kind(), 'H');
    assert_eq!(SensorReading::Unknown.serialize_kind(), '?');
}

#[test]
fn instants_are_ordered_by_seconds_then_nanoseconds() {
    let early = Timestamp { secs: 10, nanos: 999_999_999 };
    let late = Timestamp { secs: 11, nanos: 0 };
    assert!(late.is_after(&early));
    assert!(!early.is_after(&late));
    assert!(!early.is_after(&early));
    assert!(Timestamp { secs: 10, nanos: 2 }.is_after(&Timestamp { secs: 10, nanos: 1 }));
    assert!(Timestamp { secs: -1, nanos: 0 }.is_after(&Timestamp { secs: -2, nanos: 5 }));
}

#[test]
fn sensors_are_equal_field_by_field() {
    let one = Sensor { family: SensorFamily::Alpha, address: "A".to_string(), name: None };
    let other_name =
        Sensor { family: SensorFamily::Alpha, address: "A".to_string(), name: Some("n".into()) };
    let other_address = Sensor { family: SensorFamily::Alpha, address: "B".to_string(), name: None };
    assert_eq!(one, one.clone());
    assert_ne!(one, other_name);
    assert_ne!(one, other_address);
    assert_eq!(other_name, other_name.clone());
}
