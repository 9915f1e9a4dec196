//! The rows of the two storage tables, as they are read and written.

use vstd::prelude::*;
use crate::peripheral::name_view;
use crate::sensor::Timestamp;

verus! {

/// A stored reading.
#[derive(Debug)]
pub struct ReadingDTO {
    pub id: i32,
    /// The handle of the sensor that the reading belongs to.
    pub sensor: i32,
    pub timestamp: Timestamp,
    /// The kind of reading: `T` for a temperature, `H` for a humidity.
    pub kind: String,
    pub value: i32,
}

/// A reading on its way into storage.
#[derive(Clone, Copy, Debug)]
pub struct AddReadingDTO {
    pub sensor: i32,
    pub timestamp: Timestamp,
    pub kind: &'static str,
    pub value: i32,
}

/// A stored sensor.
#[derive(Debug)]
pub struct SensorDTO {
    pub id: i32,
    pub address: String,
    pub name: Option<String>,
}

/// A sensor on its way into storage.
#[derive(Debug)]
pub struct AddSensorDTO {
    pub name: Option<String>,
    pub address: String,
}

/// Mathematical content of an [`AddSensorDTO`].
pub struct AddSensorView {
    pub name: Option<Seq<char>>,
    pub address: Seq<char>,
}

impl View for AddSensorDTO {
    type V = AddSensorView;

    open spec fn view(&self) -> AddSensorView {
        AddSensorView { name: name_view(self.name), address: self.address@ }
    }
}

/// Mathematical content of an [`AddReadingDTO`].
pub struct AddReadingView {
    pub sensor: i32,
    pub timestamp: Timestamp,
    pub kind: Seq<char>,
    pub value: i32,
}

impl View for AddReadingDTO {
    type V = AddReadingView;

    open spec fn view(&self) -> AddReadingView {
        AddReadingView {
            sensor: self.sensor,
            timestamp: self.timestamp,
            kind: self.kind@,
            value: self.value,
        }
    }
}

} // verus!
