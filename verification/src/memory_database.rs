//! A store that keeps everything in memory. It is the reference for what the
//! storage interface means, and it serves where no database is at hand.

use vstd::prelude::*;
use vstd::string::StrSliceExecFns;
use crate::database::{
    created_in,
    holds_address,
    holds_sensor,
    lemma_created_keeps_one_per_address,
    one_per_address,
    Database,
    DatabaseError,
    DatabaseErrorView,
};
use crate::sensor::{Sensor, SensorReading, SensorView, Timestamp, TimestampedSensorReading};
use crate::sqlite_database::sensor_views;

verus! {

/// A reading as the store keeps it: with the handle of its sensor.
#[derive(Clone, Copy, Debug, PartialEq, Eq, Structural)]
pub struct StoredReading {
    pub sensor: usize,
    pub timestamp: Timestamp,
    pub reading: SensorReading,
}

impl StoredReading {
    /// The reading without the handle.
    pub open spec fn stamped(self) -> TimestampedSensorReading {
        TimestampedSensorReading { timestamp: self.timestamp, reading: self.reading }
    }
}

/// The first position in `sensors` at which `address` is stored, if it is
/// stored.
pub open spec fn first_with(sensors: Seq<SensorView>, address: Seq<char>) -> Option<int>
    decreases sensors.len(),
{
    if sensors.len() == 0 {
        None
    } else if sensors[0].address == address {
        Some(0)
    } else {
        match first_with(sensors.skip(1), address) {
            Some(at) => Some(at + 1),
            None => None,
        }
    }
}

/// The test that a stored reading belongs to the sensor behind `handle`.
pub open spec fn reading_of_sensor(handle: usize) -> spec_fn(StoredReading) -> bool {
    |stored: StoredReading| stored.sensor == handle
}

/// The test that a stored reading belongs to the sensor behind `handle` and
/// was taken after `bound`.
pub open spec fn reading_after(handle: usize, bound: Timestamp) -> spec_fn(StoredReading) -> bool {
    |stored: StoredReading| stored.sensor == handle && stored.timestamp.later_than(bound)
}

/// The test that a stored reading belongs to the sensor behind `handle` and
/// is of the kind that is written with the letters `kind`.
pub open spec fn reading_of_kind(handle: usize, kind: Seq<char>) -> spec_fn(StoredReading) -> bool {
    |stored: StoredReading| stored.sensor == handle && kind == seq![stored.reading.fields().kind]
}

/// The stored readings without their handles.
pub open spec fn stamped_all(readings: Seq<StoredReading>) -> Seq<TimestampedSensorReading> {
    readings.map_values(|stored: StoredReading| stored.stamped())
}

/// What the store holds.
pub struct MemoryView {
    /// The stored sensors; the handle of a sensor is its position.
    pub sensors: Seq<SensorView>,
    /// The stored readings, oldest first.
    pub readings: Seq<StoredReading>,
}

impl MemoryView {
    /// The store after a sensor was made known to it: the sensor is added
    /// at the end unless its address is stored already.
    pub open spec fn created(self, sensor: SensorView) -> MemoryView {
        if first_with(self.sensors, sensor.address) is Some {
            self
        } else {
            MemoryView { sensors: self.sensors.push(sensor), ..self }
        }
    }

    /// Whether a reading can be stored under `handle`: the handle is that
    /// of a stored sensor and the reading is of a known kind.
    pub open spec fn accepts(self, handle: usize, reading: SensorReading) -> bool {
        handle < self.sensors.len() && reading != SensorReading::Unknown
    }

    /// The store after a reading was appended.
    pub open spec fn appended(self, handle: usize, timestamp: Timestamp, reading: SensorReading)
        -> MemoryView {
        MemoryView {
            readings: self.readings.push(StoredReading { sensor: handle, timestamp, reading }),
            ..self
        }
    }
}

/// If `address` is stored at `at` and nowhere before, `at` is its first
/// position.
pub proof fn lemma_first_with_found(sensors: Seq<SensorView>, address: Seq<char>, at: int)
    requires
        0 <= at < sensors.len(),
        sensors[at].address == address,
        forall|k: int| 0 <= k < at ==> sensors[k].address != address,
    ensures
        first_with(sensors, address) == Some(at),
    decreases at,
{
    if at > 0 {
        let rest = sensors.skip(1);
        assert forall|k: int| 0 <= k < at - 1 implies rest[k].address != address by {
            assert(rest[k] == sensors[k + 1]);
        }
        lemma_first_with_found(rest, address, at - 1);
    }
}

/// If `address` is stored nowhere, it has no first position.
pub proof fn lemma_first_with_missing(sensors: Seq<SensorView>, address: Seq<char>)
    requires
        forall|k: int| 0 <= k < sensors.len() ==> sensors[k].address != address,
    ensures
        first_with(sensors, address) is None,
    decreases sensors.len(),
{
    if sensors.len() > 0 {
        let rest = sensors.skip(1);
        assert forall|k: int| 0 <= k < rest.len() implies rest[k].address != address by {
            assert(rest[k] == sensors[k + 1]);
        }
        lemma_first_with_missing(rest, address);
    }
}

/// The first position of an address, where there is one, holds that address
/// and no earlier position does; where there is none, no position does.
pub proof fn lemma_first_with_meaning(sensors: Seq<SensorView>, address: Seq<char>)
    ensures
        match first_with(sensors, address) {
            Some(at) => 0 <= at < sensors.len() && sensors[at].address == address && forall|k: int|
                0 <= k < at ==> sensors[k].address != address,
            None => forall|k: int| 0 <= k < sensors.len() ==> sensors[k].address != address,
        },
    decreases sensors.len(),
{
    if sensors.len() > 0 && sensors[0].address != address {
        let rest = sensors.skip(1);
        lemma_first_with_meaning(rest, address);
        match first_with(rest, address) {
            Some(at) => {
                assert(rest[at] == sensors[at + 1]);
                assert forall|k: int| 0 <= k < at + 1 implies sensors[k].address != address by {
                    if k > 0 {
                        assert(rest[k - 1] == sensors[k]);
                    }
                }
            },
            None => {
                assert forall|k: int| 0 <= k < sensors.len() implies sensors[k].address
                    != address by {
                    if k > 0 {
                        assert(rest[k - 1] == sensors[k]);
                    }
                }
            },
        }
    }
}

/// A sensor that was made known to the store is found again under a handle,
/// and the sensor behind that handle has its address. If the sensor was
/// added now, the sensor behind the handle is the very same, name and all.
pub proof fn lemma_created_sensor_is_found(store: MemoryView, sensor: SensorView)
    ensures
        first_with(store.created(sensor).sensors, sensor.address) matches Some(handle) && 0
            <= handle < store.created(sensor).sensors.len() && store.created(
            sensor,
        ).sensors[handle].address == sensor.address && (first_with(store.sensors, sensor.address)
            is None ==> store.created(sensor).sensors[handle] == sensor),
{
    lemma_first_with_meaning(store.sensors, sensor.address);
    let after = store.created(sensor);
    if first_with(store.sensors, sensor.address) is None {
        let at = store.sensors.len() as int;
        assert(after.sensors[at] == sensor);
        assert forall|k: int| 0 <= k < at implies after.sensors[k].address != sensor.address by {
            assert(after.sensors[k] == store.sensors[k]);
        }
        lemma_first_with_found(after.sensors, sensor.address, at);
    }
}

/// Making a sensor known a second time changes nothing.
pub proof fn lemma_created_twice(store: MemoryView, sensor: SensorView)
    ensures
        store.created(sensor).created(sensor) == store.created(sensor),
{
    lemma_created_sensor_is_found(store, sensor);
}

/// The store in memory.
pub struct MemoryDatabase {
    sensors: Vec<Sensor>,
    readings: Vec<StoredReading>,
}

impl View for MemoryDatabase {
    type V = MemoryView;

    closed spec fn view(&self) -> MemoryView {
        MemoryView { sensors: sensor_views(self.sensors@), readings: self.readings@ }
    }
}

/// The view of the outcome of a lookup.
pub open spec fn lookup_view(found: Result<usize, DatabaseError>) -> Option<int> {
    match found {
        Ok(handle) => Some(handle as int),
        Err(_) => None,
    }
}

impl MemoryDatabase {
    /// The sensors that are stored, each under its handle: the handle of a
    /// sensor is its position.
    pub open spec fn stored(&self) -> Map<usize, SensorView> {
        Map::new(
            |handle: usize| handle < self@.sensors.len(),
            |handle: usize| self@.sensors[handle as int],
        )
    }

    /// An address has a first position exactly if a sensor is stored under
    /// it.
    pub proof fn lemma_found_iff_stored(&self, address: Seq<char>)
        ensures
            first_with(self@.sensors, address) is Some <==> holds_address(self.stored(), address),
    {
        lemma_first_with_meaning(self@.sensors, address);
        assert(self@.sensors.len() == self.sensors.len());
        match first_with(self@.sensors, address) {
            Some(at) => {
                assert(self.stored().contains_key(at as usize));
            },
            None => {
                if holds_address(self.stored(), address) {
                    let taken = choose|handle: usize|
                        #[trigger] self.stored().contains_key(handle)
                            && self.stored()[handle].address == address;
                    assert(self@.sensors[taken as int].address == address);
                }
            },
        }
    }

    /// An empty store.
    pub fn new() -> (store: Self)
        ensures
            store@ == (MemoryView { sensors: Seq::empty(), readings: Seq::empty() }),
            one_per_address(store.stored()),
    {
        let store = MemoryDatabase { sensors: Vec::new(), readings: Vec::new() };
        assert(store@.sensors =~= Seq::empty());
        store
    }

    /// The number of stored readings.
    pub fn reading_count(&self) -> (count: usize)
        ensures
            count == self@.readings.len(),
    {
        self.readings.len()
    }

    /// The first position at which an address is stored.
    fn find(&self, address: &String) -> (found: Option<usize>)
        ensures
            match found {
                Some(at) => first_with(self@.sensors, address@) == Some(at as int) && at
                    < self.sensors@.len(),
                None => first_with(self@.sensors, address@) is None,
            },
    {
        let mut i: usize = 0;
        while i < self.sensors.len()
            invariant
                i <= self.sensors@.len(),
                forall|k: int| 0 <= k < i ==> self@.sensors[k].address != address@,
            decreases self.sensors@.len() - i,
        {
            if self.sensors[i].address == *address {
                proof {
                    lemma_first_with_found(self@.sensors, address@, i as int);
                }
                return Some(i);
            }
            i = i + 1;
        }
        proof {
            lemma_first_with_missing(self@.sensors, address@);
        }
        None
    }

    /// Collects the readings that pass a test, oldest first.
    fn select(&self, handle: usize, bound: Option<Timestamp>) -> (out: Vec<
        TimestampedSensorReading,
    >)
        ensures
            out@ == stamped_all(
                self@.readings.filter(
                    match bound {
                        Some(after) => reading_after(handle, after),
                        None => reading_of_sensor(handle),
                    },
                ),
            ),
    {
        let ghost test = match bound {
            Some(after) => reading_after(handle, after),
            None => reading_of_sensor(handle),
        };
        let mut out: Vec<TimestampedSensorReading> = Vec::new();
        let mut i: usize = 0;
        proof {
            self.readings@.take(0).lemma_filter_len(test);
            assert(out@ =~= stamped_all(self.readings@.take(0).filter(test)));
        }
        while i < self.readings.len()
            invariant
                i <= self.readings@.len(),
                out@ == stamped_all(self.readings@.take(i as int).filter(test)),
                test == match bound {
                    Some(after) => reading_after(handle, after),
                    None => reading_of_sensor(handle),
                },
            decreases self.readings@.len() - i,
        {
            let stored = self.readings[i];
            let passes = stored.sensor == handle && match bound {
                Some(after) => stored.timestamp.is_after(&after),
                None => true,
            };
            proof {
                let rows = self.readings@;
                assert(rows.take(i as int + 1) == rows.take(i as int).push(rows[i as int]));
                rows.take(i as int).lemma_filter_push(rows[i as int], test);
                assert(passes == test(stored));
            }
            if passes {
                out.push(
                    TimestampedSensorReading {
                        timestamp: stored.timestamp,
                        reading: stored.reading,
                    },
                );
                assert(out@ =~= stamped_all(self.readings@.take(i as int + 1).filter(test)));
            }
            i = i + 1;
        }
        assert(self.readings@.take(i as int) == self.readings@);
        out
    }
}

impl Database for MemoryDatabase {
    type SensorHandle = usize;

    /// Finds the handle of the sensor with the address of `sensor`.
    fn get_sensor_handle(&self, sensor: &Sensor) -> (found: Result<usize, DatabaseError>)
        ensures
            lookup_view(found) == first_with(self@.sensors, sensor.address@),
            found is Ok <==> holds_address(self.stored(), sensor.address@),
            found matches Ok(handle) ==> self.stored().contains_key(handle)
                && self.stored()[handle].address == sensor.address@,
            found matches Err(error) ==> error@ == DatabaseErrorView::NotFound,
    {
        proof {
            lemma_first_with_meaning(self@.sensors, sensor.address@);
            self.lemma_found_iff_stored(sensor.address@);
        }
        match self.find(&sensor.address) {
            Some(at) => Ok(at),
            None => Err(DatabaseError::NotFound),
        }
    }

    /// Finds the handle of the sensor with the address `addr`.
    fn get_sensor_by_addr(&self, addr: String) -> (found: Result<usize, DatabaseError>)
        ensures
            lookup_view(found) == first_with(self@.sensors, addr@),
            found is Ok <==> holds_address(self.stored(), addr@),
            found matches Ok(handle) ==> self.stored().contains_key(handle)
                && self.stored()[handle].address == addr@,
            found matches Err(error) ==> error@ == DatabaseErrorView::NotFound,
    {
        proof {
            lemma_first_with_meaning(self@.sensors, addr@);
            self.lemma_found_iff_stored(addr@);
        }
        match self.find(&addr) {
            Some(at) => Ok(at),
            None => Err(DatabaseError::NotFound),
        }
    }

    /// Reads the sensor behind `handle`, if the handle is that of a stored
    /// sensor.
    fn get_sensor_by_handle(&self, handle: &usize) -> (found: Result<Sensor, DatabaseError>)
        ensures
            found is Ok <==> self.stored().contains_key(*handle),
            found matches Ok(sensor) ==> sensor@ == self.stored()[*handle],
            match found {
                Ok(sensor) => *handle < self@.sensors.len() && sensor@ == self@.sensors[*handle
                    as int],
                Err(error) => *handle >= self@.sensors.len() && error@
                    == DatabaseErrorView::NotFound,
            },
    {
        if *handle < self.sensors.len() {
            Ok(self.sensors[*handle].clone())
        } else {
            Err(DatabaseError::NotFound)
        }
    }

    /// Stores `sensor` unless its address is stored already. Always
    /// succeeds.
    fn create_sensor_if_not_exists(&mut self, sensor: &Sensor) -> (created: Result<
        bool,
        DatabaseError,
    >)
        ensures
            final(self)@ == old(self)@.created(sensor@),
            created matches Ok(added) && added == (first_with(old(self)@.sensors, sensor.address@)
                is None) && created_in(old(self).stored(), final(self).stored(), sensor@, added),
            one_per_address(old(self).stored()) ==> one_per_address(final(self).stored()),
    {
        let ghost before = self.stored();
        proof {
            lemma_first_with_meaning(self@.sensors, sensor.address@);
        }
        match self.find(&sensor.address) {
            Some(at) => {
                assert(before.contains_key(at));
                proof {
                    if one_per_address(before) {
                        lemma_created_keeps_one_per_address(before, self.stored(), sensor@, false);
                    }
                }
                Ok(false)
            },
            None => {
                let copy = sensor.clone();
                let ghost fresh = self.sensors.len();
                assert(sensor_views(self.sensors@.push(copy)) =~= sensor_views(
                    self.sensors@,
                ).push(sensor@));
                self.sensors.push(copy);
                proof {
                    assert(!holds_address(before, sensor.address@)) by {
                        if holds_address(before, sensor.address@) {
                            let taken = choose|handle: usize|
                                #[trigger] before.contains_key(handle) && before[handle].address
                                    == sensor.address@;
                            assert(old(self)@.sensors[taken as int].address == sensor.address@);
                        }
                    }
                    assert(!before.contains_key(fresh));
                    assert(self.stored() =~= before.insert(fresh, sensor@));
                    if one_per_address(before) {
                        lemma_created_keeps_one_per_address(before, self.stored(), sensor@, true);
                    }
                }
                Ok(true)
            },
        }
    }

    /// Reads every stored sensor, in the order of their handles.
    fn get_sensors(&self) -> (all: Result<Vec<Sensor>, DatabaseError>)
        ensures
            all matches Ok(list) && sensor_views(list@) == self@.sensors && forall|i: int|
                0 <= i < list@.len() ==> holds_sensor(self.stored(), (#[trigger] list@[i])@),
    {
        let mut list: Vec<Sensor> = Vec::new();
        let mut i: usize = 0;
        while i < self.sensors.len()
            invariant
                i <= self.sensors@.len(),
                list@.len() == i,
                forall|k: int| 0 <= k < i ==> list@[k]@ == self.sensors@[k]@,
            decreases self.sensors@.len() - i,
        {
            list.push(self.sensors[i].clone());
            i = i + 1;
        }
        assert(sensor_views(list@) =~= sensor_views(self.sensors@));
        assert forall|k: int| 0 <= k < list@.len() implies holds_sensor(
            self.stored(),
            (#[trigger] list@[k])@,
        ) by {
            assert(self.stored().contains_key(k as usize));
            assert(self.stored()[k as usize] == self@.sensors[k]);
            assert(sensor_views(list@)[k] == list@[k]@);
        }
        Ok(list)
    }

    /// Appends a reading of a known kind to those of a stored sensor. A
    /// handle that is not that of a stored sensor is not found, and a
    /// reading of unknown kind is refused as a conflict; neither changes the
    /// store.
    fn add_reading(&mut self, sensor: &usize, timestamp: Timestamp, reading: &SensorReading)
        -> (added: Result<(), DatabaseError>)
        ensures
            final(self)@ == if old(self)@.accepts(*sensor, *reading) {
                old(self)@.appended(*sensor, timestamp, *reading)
            } else {
                old(self)@
            },
            added is Ok <==> old(self)@.accepts(*sensor, *reading),
            final(self).stored() == old(self).stored(),
            added matches Err(error) ==> error@ == if *sensor >= old(self)@.sensors.len() {
                DatabaseErrorView::NotFound
            } else {
                DatabaseErrorView::Conflict
            },
    {
        if *sensor >= self.sensors.len() {
            return Err(DatabaseError::NotFound);
        }
        match reading {
            SensorReading::Unknown => Err(DatabaseError::Conflict),
            _ => {
                self.readings.push(StoredReading { sensor: *sensor, timestamp, reading: *reading });
                Ok(())
            },
        }
    }

    /// Reads every reading of the sensor behind `handle`, oldest first.
    fn get_readings(&self, handle: &usize) -> (found: Result<
        Vec<TimestampedSensorReading>,
        DatabaseError,
    >)
        ensures
            found matches Ok(list) && list@ == stamped_all(
                self@.readings.filter(reading_of_sensor(*handle)),
            ),
    {
        Ok(self.select(*handle, None))
    }

    /// Reads the readings of the sensor behind `handle` that were taken
    /// strictly after `timestamp`, oldest first.
    fn get_readings_after(&self, handle: &usize, timestamp: Timestamp) -> (found: Result<
        Vec<TimestampedSensorReading>,
        DatabaseError,
    >)
        ensures
            found matches Ok(list) && list@ == stamped_all(
                self@.readings.filter(reading_after(*handle, timestamp)),
            ),
    {
        Ok(self.select(*handle, Some(timestamp)))
    }

    /// Reads the reading of the kind `kind` (`T` or `H`) that was stored
    /// last for the sensor behind `handle`.
    fn get_latest_reading(&self, handle: &usize, kind: String) -> (found: Result<
        TimestampedSensorReading,
        DatabaseError,
    >)
        ensures
            match found {
                Ok(reading) => self@.readings.filter(reading_of_kind(*handle, kind@)).len() > 0
                    && reading == self@.readings.filter(
                    reading_of_kind(*handle, kind@),
                ).last().stamped(),
                Err(error) => self@.readings.filter(reading_of_kind(*handle, kind@)).len() == 0
                    && error@ == DatabaseErrorView::NotFound,
            },
    {
        let ghost test = reading_of_kind(*handle, kind@);
        let letter: Option<char> = if kind.as_str().unicode_len() == 1 {
            Some(kind.as_str().get_char(0))
        } else {
            None
        };
        let mut latest: Option<TimestampedSensorReading> = None;
        let mut i: usize = 0;
        proof {
            self.readings@.take(0).lemma_filter_len(test);
        }
        while i < self.readings.len()
            invariant
                i <= self.readings@.len(),
                test == reading_of_kind(*handle, kind@),
                match letter {
                    Some(c) => kind@ == seq![c],
                    None => kind@.len() != 1,
                },
                match latest {
                    Some(reading) => self.readings@.take(i as int).filter(test).len() > 0
                        && reading == self.readings@.take(i as int).filter(test).last().stamped(),
                    None => self.readings@.take(i as int).filter(test).len() == 0,
                },
            decreases self.readings@.len() - i,
        {
            let stored = self.readings[i];
            let passes = stored.sensor == *handle && match letter {
                Some(c) => c == stored.reading.serialize_kind(),
                None => false,
            };
            proof {
                let rows = self.readings@;
                assert(rows.take(i as int + 1) == rows.take(i as int).push(rows[i as int]));
                rows.take(i as int).lemma_filter_push(rows[i as int], test);
                match letter {
                    Some(c) => {
                        assert(kind@ =~= seq![c]);
                        if c == stored.reading.fields().kind {
                            assert(kind@ =~= seq![stored.reading.fields().kind]);
                        } else {
                            assert(kind@[0] != seq![stored.reading.fields().kind][0]);
                        }
                    },
                    None => {
                        assert(seq![stored.reading.fields().kind].len() == 1);
                    },
                }
                assert(passes == test(stored));
            }
            if passes {
                latest = Some(
                    TimestampedSensorReading {
                        timestamp: stored.timestamp,
                        reading: stored.reading,
                    },
                );
            }
            i = i + 1;
        }
        assert(self.readings@.take(i as int) == self.readings@);
        match latest {
            Some(reading) => Ok(reading),
            None => Err(DatabaseError::NotFound),
        }
    }
}

} // verus!
