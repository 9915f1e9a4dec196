//! The rules of the SQL-backed store: how rows become sensors and readings
//! and back, how the failures of the engine are classified, and when a
//! sensor is inserted.
//!
//! The queries themselves are run by the embedding program, which reports
//! what the engine answered.

use vstd::prelude::*;
use vstd::string::StrSliceExecFns;
use crate::database::{DatabaseError, DatabaseErrorView};
use crate::peripheral::{clone_name, name_view};
use crate::schema::{AddReadingDTO, AddReadingView, AddSensorDTO, AddSensorView, ReadingDTO, SensorDTO};
use crate::sensor::{
    Sensor,
    SensorFamily,
    SensorReading,
    SensorView,
    Timestamp,
    TimestampedSensorReading,
};
use crate::text::{lowercase_of, occurs_in, str_contains, str_to_lowercase};

verus! {

/// The kind of failure that the engine reported.
#[derive(Clone, Copy, Debug, PartialEq, Eq, Structural)]
pub enum SqlErrorKind {
    /// The query matched no row.
    NotFound,
    /// A transaction was opened inside another.
    AlreadyInTransaction,
    /// The engine refused the statement.
    DatabaseError,
    /// Anything else.
    Other,
}

/// A failure of the engine: its kind, its message, and its full
/// description for the log.
#[derive(Debug)]
pub struct SqlError {
    pub kind: SqlErrorKind,
    pub message: String,
    pub debug: String,
}

/// The reading that a stored row stands for: a row of kind `T` is a
/// temperature, a row of kind `H` is a humidity, of which the low eight bits
/// of the stored number count, and any other row is of unknown kind.
pub open spec fn reading_of(kind: Seq<char>, value: i32) -> SensorReading {
    if kind == seq!['T'] {
        SensorReading::Temperature(value)
    } else if kind == seq!['H'] {
        SensorReading::Humidity(value as u8)
    } else {
        SensorReading::Unknown
    }
}

/// The reading, with its time, that a stored row stands for.
pub open spec fn stored_reading(dto: ReadingDTO) -> TimestampedSensorReading {
    TimestampedSensorReading { timestamp: dto.timestamp, reading: reading_of(dto.kind@, dto.value) }
}

/// The sensor that a stored row stands for.
pub open spec fn stored_sensor(dto: SensorDTO) -> SensorView {
    SensorView { family: SensorFamily::Alpha, address: dto.address@, name: name_view(dto.name) }
}

/// The message of a refused statement that means that the store is locked.
pub open spec fn locked_marker() -> Seq<char> {
    "database is locked"@
}

/// The message of a refused statement that means that a row exists already.
pub open spec fn not_unique_marker() -> Seq<char> {
    "is not unique"@
}

/// How a refused statement is classified from its message in lower case.
pub open spec fn refusal_class(lowered: Seq<char>, debug: Seq<char>) -> DatabaseErrorView {
    if occurs_in(locked_marker(), lowered) {
        DatabaseErrorView::Busy
    } else if occurs_in(not_unique_marker(), lowered) {
        DatabaseErrorView::Conflict
    } else {
        DatabaseErrorView::Other(debug)
    }
}

/// How a failure of the engine is classified.
pub open spec fn failure_class(err: SqlError) -> DatabaseErrorView {
    match err.kind {
        SqlErrorKind::AlreadyInTransaction => DatabaseErrorView::Busy,
        SqlErrorKind::DatabaseError => refusal_class(lowercase_of(err.message@), err.debug@),
        _ => DatabaseErrorView::Other(err.message@),
    }
}

/// How the failure of a lookup is classified.
pub open spec fn lookup_failure_class(err: SqlError) -> DatabaseErrorView {
    match err.kind {
        SqlErrorKind::NotFound => DatabaseErrorView::NotFound,
        _ => DatabaseErrorView::Other(err.message@),
    }
}

/// Tells whether `text` consists of the one character `letter`.
fn is_letter(text: &str, letter: char) -> (yes: bool)
    ensures
        yes == (text@ == seq![letter]),
{
    if text.unicode_len() == 1 {
        let yes = text.get_char(0) == letter;
        proof {
            if yes {
                assert(text@ =~= seq![letter]);
            }
        }
        yes
    } else {
        false
    }
}

/// Reads a stored row as a reading.
pub fn to_reading(dto: &ReadingDTO) -> (reading: TimestampedSensorReading)
    ensures
        reading == stored_reading(*dto),
{
    let reading = if is_letter(dto.kind.as_str(), 'T') {
        SensorReading::Temperature(dto.value)
    } else if is_letter(dto.kind.as_str(), 'H') {
        SensorReading::Humidity(#[verifier::truncate] (dto.value as u8))
    } else {
        SensorReading::Unknown
    };
    TimestampedSensorReading { timestamp: dto.timestamp, reading }
}

/// Reads a stored row as a sensor. Every stored sensor is of the Alpha
/// family.
pub fn to_sensor(sensor: &SensorDTO) -> (out: Sensor)
    ensures
        out@ == stored_sensor(*sensor),
{
    Sensor {
        family: SensorFamily::Alpha,
        address: sensor.address.clone(),
        name: clone_name(&sensor.name),
    }
}

/// Reads stored rows as readings, in order.
pub fn map_readings(readings: Vec<ReadingDTO>) -> (out: Vec<TimestampedSensorReading>)
    ensures
        out@ == readings@.map_values(|dto: ReadingDTO| stored_reading(dto)),
{
    let mut out: Vec<TimestampedSensorReading> = Vec::new();
    let mut i: usize = 0;
    while i < readings.len()
        invariant
            i <= readings@.len(),
            out@ == readings@.take(i as int).map_values(|dto: ReadingDTO| stored_reading(dto)),
        decreases readings@.len() - i,
    {
        out.push(to_reading(&readings[i]));
        i = i + 1;
        assert(out@ =~= readings@.take(i as int).map_values(|dto: ReadingDTO| stored_reading(dto)));
    }
    assert(readings@.take(i as int) =~= readings@);
    out
}

/// The views of a list of sensors.
pub open spec fn sensor_views(list: Seq<Sensor>) -> Seq<SensorView> {
    list.map_values(|sensor: Sensor| sensor@)
}

/// Reads stored rows as sensors, in order.
pub fn map_sensors(readings: Vec<SensorDTO>) -> (out: Vec<Sensor>)
    ensures
        sensor_views(out@) == readings@.map_values(|dto: SensorDTO| stored_sensor(dto)),
{
    let mut out: Vec<Sensor> = Vec::new();
    let mut i: usize = 0;
    while i < readings.len()
        invariant
            i <= readings@.len(),
            out@.len() == i,
            sensor_views(out@) == readings@.take(i as int).map_values(
                |dto: SensorDTO| stored_sensor(dto),
            ),
        decreases readings@.len() - i,
    {
        let ghost before = out@;
        let sensor = to_sensor(&readings[i]);
        out.push(sensor);
        i = i + 1;
        proof {
            let rows = readings@.take(i as int);
            let earlier = readings@.take(i as int - 1);
            let wanted = rows.map_values(|dto: SensorDTO| stored_sensor(dto));
            assert(sensor_views(out@).len() == wanted.len());
            assert forall|k: int| 0 <= k < wanted.len() implies sensor_views(out@)[k]
                == wanted[k] by {
                if k < i - 1 {
                    assert(out@[k] == before[k]);
                    assert(sensor_views(before)[k] == before[k]@);
                    assert(earlier.map_values(|dto: SensorDTO| stored_sensor(dto))[k]
                        == stored_sensor(earlier[k]));
                    assert(earlier[k] == rows[k]);
                } else {
                    assert(out@[k] == sensor);
                    assert(rows[k] == readings@[k]);
                }
            }
            assert(sensor_views(out@) =~= wanted);
        }
    }
    assert(readings@.take(i as int) =~= readings@);
    out
}

/// Classifies a refused statement from its message in lower case: a locked
/// store is busy, a row that is not unique is a conflict, and anything else
/// is passed on with the full description of the failure.
pub fn classify_refusal(lowered: &str, debug: String) -> (out: DatabaseError)
    ensures
        out@ == refusal_class(lowered@, debug@),
{
    if str_contains(lowered, "database is locked") {
        DatabaseError::Busy
    } else if str_contains(lowered, "is not unique") {
        DatabaseError::Conflict
    } else {
        DatabaseError::Other(debug)
    }
}

/// Classifies a failure of the engine: a nested transaction means that the
/// store is busy, a refused statement is classified by its message without
/// regard to case, and anything else is passed on with its message.
pub fn sql_error_to_db_error(err: SqlError) -> (out: DatabaseError)
    ensures
        out@ == failure_class(err),
{
    match err.kind {
        SqlErrorKind::AlreadyInTransaction => DatabaseError::Busy,
        SqlErrorKind::DatabaseError => {
            let lowered = str_to_lowercase(err.message.as_str());
            classify_refusal(lowered.as_str(), err.debug)
        },
        _ => DatabaseError::Other(err.message),
    }
}

/// Classifies the failure of a lookup: no row means not found, and anything
/// else is passed on with its message.
pub fn find_sensor_map_err(err: SqlError) -> (out: DatabaseError)
    ensures
        out@ == lookup_failure_class(err),
{
    match err.kind {
        SqlErrorKind::NotFound => DatabaseError::NotFound,
        _ => DatabaseError::Other(err.message),
    }
}

/// The failure to get a connection to the store means that the store is
/// busy.
pub fn connection_or_busy() -> (out: DatabaseError)
    ensures
        out@ == DatabaseErrorView::Busy,
{
    DatabaseError::Busy
}

/// What is to be done to make a sensor known to the store.
#[derive(Debug)]
pub enum CreateStep {
    /// The sensor is stored already: nothing is inserted.
    Exists,
    /// The sensor is to be inserted with this row.
    Insert(AddSensorDTO),
    /// The lookup failed and nothing is inserted.
    Fail(DatabaseError),
}

/// Mathematical content of a [`CreateStep`].
pub enum CreateStepView {
    Exists,
    Insert(AddSensorView),
    Fail(DatabaseErrorView),
}

impl View for CreateStep {
    type V = CreateStepView;

    open spec fn view(&self) -> CreateStepView {
        match self {
            CreateStep::Exists => CreateStepView::Exists,
            CreateStep::Insert(row) => CreateStepView::Insert(row@),
            CreateStep::Fail(error) => CreateStepView::Fail(error@),
        }
    }
}

/// What follows from the lookup of a sensor by its address.
pub open spec fn create_step(sensor: SensorView, found: Result<(), SqlError>) -> CreateStepView {
    match found {
        Ok(()) => CreateStepView::Exists,
        Err(err) => if err.kind == SqlErrorKind::NotFound {
            CreateStepView::Insert(AddSensorView { name: sensor.name, address: sensor.address })
        } else {
            CreateStepView::Fail(DatabaseErrorView::Other(err.message@))
        },
    }
}

/// Decides how to make a sensor known to the store, given what the lookup
/// of its address found: a sensor that is stored is left alone, one that is
/// not is inserted under its address and name, and any other failure of the
/// lookup is passed on with its message.
pub fn create_sensor_if_not_exists(sensor: &Sensor, found: Result<(), SqlError>) -> (step:
    CreateStep)
    ensures
        step@ == create_step(sensor@, found),
{
    match found {
        Ok(()) => CreateStep::Exists,
        Err(err) => match err.kind {
            SqlErrorKind::NotFound => CreateStep::Insert(
                AddSensorDTO { name: clone_name(&sensor.name), address: sensor.address.clone() },
            ),
            _ => CreateStep::Fail(DatabaseError::Other(err.message)),
        },
    }
}

/// What the lookup and the insert together come to: `Ok(false)` for a
/// sensor that was stored already, `Ok(true)` for one that was inserted,
/// and the classified failure of the insert otherwise.
pub open spec fn create_result(inserted: Option<Result<(), SqlError>>) -> Result<
    bool,
    DatabaseErrorView,
> {
    match inserted {
        None => Ok(false),
        Some(Ok(())) => Ok(true),
        Some(Err(err)) => Err(failure_class(err)),
    }
}

/// Concludes making a sensor known to the store. `inserted` is `None` where
/// nothing had to be inserted, and the result of the insert otherwise.
pub fn finish_create_sensor(inserted: Option<Result<(), SqlError>>) -> (result: Result<
    bool,
    DatabaseError,
>)
    ensures
        match result {
            Ok(created) => create_result(inserted) == Ok::<bool, DatabaseErrorView>(created),
            Err(error) => create_result(inserted) == Err::<bool, DatabaseErrorView>(error@),
        },
{
    match inserted {
        None => Ok(false),
        Some(Ok(())) => Ok(true),
        Some(Err(err)) => Err(sql_error_to_db_error(err)),
    }
}

/// The row under which a reading is stored: a temperature as kind `T` and a
/// humidity as kind `H`, each with its number. A reading of unknown kind has
/// no row.
pub open spec fn reading_row(handle: i32, timestamp: Timestamp, reading: SensorReading) -> Option<
    AddReadingView,
> {
    match reading {
        SensorReading::Temperature(temperature) => Some(
            AddReadingView { sensor: handle, timestamp, kind: "T"@, value: temperature },
        ),
        SensorReading::Humidity(humidity) => Some(
            AddReadingView { sensor: handle, timestamp, kind: "H"@, value: humidity as i32 },
        ),
        SensorReading::Unknown => None,
    }
}

/// The view of an optional row.
pub open spec fn row_view(row: Option<AddReadingDTO>) -> Option<AddReadingView> {
    match row {
        Some(dto) => Some(dto@),
        None => None,
    }
}

/// Makes the row under which a reading is stored.
pub fn add_reading(handle: i32, timestamp: Timestamp, reading: &SensorReading) -> (row: Option<
    AddReadingDTO,
>)
    ensures
        row_view(row) == reading_row(handle, timestamp, *reading),
{
    match reading {
        SensorReading::Temperature(temperature) => Some(
            AddReadingDTO { sensor: handle, timestamp, kind: "T", value: *temperature },
        ),
        SensorReading::Humidity(humidity) => Some(
            AddReadingDTO { sensor: handle, timestamp, kind: "H", value: *humidity as i32 },
        ),
        SensorReading::Unknown => None,
    }
}

/// A row that was written is read back as the reading it was made from.
pub proof fn lemma_row_reads_back(handle: i32, timestamp: Timestamp, reading: SensorReading)
    requires
        reading != SensorReading::Unknown,
    ensures
        reading_row(handle, timestamp, reading) matches Some(row) && reading_of(
            row.kind,
            row.value,
        ) == reading && row.timestamp == timestamp && row.sensor == handle,
{
    reveal_strlit("T");
    reveal_strlit("H");
    assert("T"@ =~= seq!['T']);
    assert("H"@ =~= seq!['H']);
    assert(seq!['T'] != seq!['H']) by {
        assert(seq!['T'][0] != seq!['H'][0]);
    }
    match reading {
        SensorReading::Humidity(humidity) => {
            assert((humidity as i32) as u8 == humidity) by (bit_vector);
        },
        _ => {},
    }
}

} // verus!
