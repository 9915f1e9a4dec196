//! Sensors and readings as the rest of the system knows them, independent of
//! how a particular device family talks.

use vstd::prelude::*;
use vstd::std_specs::cmp::PartialEqSpecImpl;
use crate::peripheral::{clone_name, name_view};

verus! {

/// The protocol family a sensor belongs to.
#[derive(Clone, Copy, Debug, PartialEq, Eq, Structural)]
pub enum SensorFamily {
    Alpha,
}

/// One measured quantity.
#[derive(Clone, Copy, Debug, PartialEq, Eq, Structural)]
pub enum SensorReading {
    /// Degrees Celsius.
    Temperature(i32),
    /// Relative humidity in percent.
    Humidity(u8),
    /// A stored value whose kind is not recognised.
    Unknown,
}

/// Whether a sensor currently has a live session.
#[derive(Clone, Copy, Debug, PartialEq, Eq, Structural)]
pub enum SensorStatus {
    Online,
    Offline,
}

/// An instant on the UTC time line: whole seconds since 1970-01-01 00:00:00
/// and the nanoseconds into that second.
#[derive(Clone, Copy, Debug, PartialEq, Eq, Structural)]
pub struct Timestamp {
    pub secs: i64,
    pub nanos: u32,
}

impl Timestamp {
    /// The instant as a count of nanoseconds since the epoch.
    pub open spec fn total_nanos(self) -> int {
        self.secs * 1_000_000_000 + self.nanos
    }

    /// Whether `self` lies strictly later than `other`, comparing seconds
    /// first and nanoseconds second.
    pub open spec fn later_than(self, other: Timestamp) -> bool {
        self.secs > other.secs || (self.secs == other.secs && self.nanos > other.nanos)
    }

    /// Tells whether this instant lies strictly after `other`.
    pub fn is_after(&self, other: &Timestamp) -> (after: bool)
        ensures
            after == self.later_than(*other),
    {
        self.secs > other.secs || (self.secs == other.secs && self.nanos > other.nanos)
    }
}

/// A reading together with the instant at which it was taken.
#[derive(Clone, Copy, Debug, PartialEq, Eq, Structural)]
pub struct TimestampedSensorReading {
    pub timestamp: Timestamp,
    pub reading: SensorReading,
}

/// How a reading is labelled when it is written out for a reader: a
/// one-letter kind and, where the kind is known, the number that goes with it.
#[derive(Clone, Copy, Debug, PartialEq, Eq, Structural)]
pub struct ReadingFields {
    pub kind: char,
    pub value: Option<i32>,
}

impl SensorReading {
    /// The kind letter and number of a reading.
    pub open spec fn fields(self) -> ReadingFields {
        match self {
            SensorReading::Temperature(temperature) => ReadingFields {
                kind: 'T',
                value: Some(temperature),
            },
            SensorReading::Humidity(humidity) => ReadingFields {
                kind: 'H',
                value: Some(humidity as i32),
            },
            SensorReading::Unknown => ReadingFields { kind: '?', value: None },
        }
    }
}

impl SensorReading {
    /// Gives the letter under which the kind of the reading is written.
    pub fn serialize_kind(&self) -> (kind: char)
        ensures
            kind == self.fields().kind,
    {
        match self {
            SensorReading::Temperature(_) => 'T',
            SensorReading::Humidity(_) => 'H',
            SensorReading::Unknown => '?',
        }
    }
}

impl TimestampedSensorReading {
    /// Gives the kind letter and the number under which the reading is
    /// written out: `T` with the temperature, `H` with the humidity, and `?`
    /// with no number for a reading of unknown kind.
    pub fn serialize(&self) -> (fields: ReadingFields)
        ensures
            fields == self.reading.fields(),
    {
        match self.reading {
            SensorReading::Temperature(temperature) => ReadingFields {
                kind: 'T',
                value: Some(temperature),
            },
            SensorReading::Humidity(humidity) => ReadingFields {
                kind: 'H',
                value: Some(humidity as i32),
            },
            SensorReading::Unknown => ReadingFields { kind: '?', value: None },
        }
    }
}

/// The persistable identity of a sensor. The address identifies the sensor;
/// the name is what the device called itself when it was last seen.
#[derive(Debug)]
pub struct Sensor {
    pub family: SensorFamily,
    pub address: String,
    pub name: Option<String>,
}

/// Mathematical content of a [`Sensor`].
pub struct SensorView {
    pub family: SensorFamily,
    pub address: Seq<char>,
    pub name: Option<Seq<char>>,
}

impl View for Sensor {
    type V = SensorView;

    open spec fn view(&self) -> SensorView {
        SensorView { family: self.family, address: self.address@, name: name_view(self.name) }
    }
}

impl Clone for Sensor {
    fn clone(&self) -> (copy: Self)
        ensures
            copy == *self,
            copy@ == self@,
    {
        Sensor {
            family: self.family,
            address: self.address.clone(),
            name: clone_name(&self.name),
        }
    }
}

/// Compares two optional names.
pub fn same_name(a: &Option<String>, b: &Option<String>) -> (same: bool)
    ensures
        same == (name_view(*a) == name_view(*b)),
{
    match (a, b) {
        (Some(x), Some(y)) => *x == *y,
        (None, None) => true,
        _ => false,
    }
}

impl PartialEq for Sensor {
    fn eq(&self, other: &Sensor) -> (same: bool) {
        self.family == other.family && self.address == other.address && same_name(
            &self.name,
            &other.name,
        )
    }
}

impl PartialEqSpecImpl for Sensor {
    open spec fn obeys_eq_spec() -> bool {
        true
    }

    open spec fn eq_spec(&self, other: &Sensor) -> bool {
        self@ == other@
    }
}

} // verus!
