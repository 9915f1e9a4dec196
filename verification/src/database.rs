//! The storage interface, and the rules by which the readings of one poll
//! reach storage.
//!
//! Writing to storage is the embedding program's work. A [`StoreTask`] tells
//! it what to do next and takes the result of each step: first the sensor is
//! made known to storage, then its handle is looked up, then the readings are
//! written one by one. A write that finds storage busy is tried again after
//! a pause, as often as it takes; any other failure ends the task.

use vstd::prelude::*;
use crate::master::{job_views, StoreJob};
use crate::registry::StoreJobView;
use crate::sensor::{Sensor, SensorReading, SensorView, Timestamp, TimestampedSensorReading};

verus! {

/// Seconds to pause before a write that found storage busy is tried again.
pub const BUSY_BACKOFF_SECS: u64 = 1;

/// Why a storage operation failed.
#[derive(Debug)]
pub enum DatabaseError {
    /// Storage is in use and cannot serve the request now.
    Busy,
    /// What was asked for is not stored.
    NotFound,
    /// The request clashes with what is stored.
    Conflict,
    /// Any other failure, with storage's own words.
    Other(String),
}

/// Mathematical content of a [`DatabaseError`].
pub enum DatabaseErrorView {
    Busy,
    NotFound,
    Conflict,
    Other(Seq<char>),
}

impl View for DatabaseError {
    type V = DatabaseErrorView;

    open spec fn view(&self) -> DatabaseErrorView {
        match self {
            DatabaseError::Busy => DatabaseErrorView::Busy,
            DatabaseError::NotFound => DatabaseErrorView::NotFound,
            DatabaseError::Conflict => DatabaseErrorView::Conflict,
            DatabaseError::Other(message) => DatabaseErrorView::Other(message@),
        }
    }
}

impl Clone for DatabaseError {
    fn clone(&self) -> (copy: Self)
        ensures
            copy == *self,
            copy@ == self@,
    {
        match self {
            DatabaseError::Busy => DatabaseError::Busy,
            DatabaseError::NotFound => DatabaseError::NotFound,
            DatabaseError::Conflict => DatabaseError::Conflict,
            DatabaseError::Other(message) => DatabaseError::Other(message.clone()),
        }
    }
}

/// Whether a sensor with the given address is stored.
pub open spec fn holds_address<H>(stored: Map<H, SensorView>, address: Seq<char>) -> bool {
    exists|handle: H| #[trigger] stored.contains_key(handle) && stored[handle].address == address
}

/// Whether a sensor is stored as it is given, name and all.
pub open spec fn holds_sensor<H>(stored: Map<H, SensorView>, sensor: SensorView) -> bool {
    exists|handle: H| #[trigger] stored.contains_key(handle) && stored[handle] == sensor
}

/// No two stored sensors have the same address.
pub open spec fn one_per_address<H>(stored: Map<H, SensorView>) -> bool {
    forall|one: H, other: H|
        #[trigger] stored.contains_key(one) && #[trigger] stored.contains_key(other)
            && stored[one].address == stored[other].address ==> one == other
}

/// What making a sensor known does to what is stored: the sensor is added
/// under a handle that was free if its address was not stored, and nothing
/// changes if it was.
pub open spec fn created_in<H>(
    before: Map<H, SensorView>,
    after: Map<H, SensorView>,
    sensor: SensorView,
    added: bool,
) -> bool {
    if added {
        !holds_address(before, sensor.address) && exists|handle: H|
            !(#[trigger] before.contains_key(handle)) && after == before.insert(handle, sensor)
    } else {
        holds_address(before, sensor.address) && after == before
    }
}

/// A store of sensors and their readings. A sensor is identified by its
/// address. The interface carries no clauses, so that a store outside this
/// crate can implement it; what its answers mean is said over a map from
/// handles to stored sensors by [`created_in`] and the lemmas that follow,
/// and the store in memory is proved to answer accordingly.
pub trait Database {
    /// What storage hands out to refer to a stored sensor.
    type SensorHandle;

    /// Looks up the handle of the stored sensor with the address of
    /// `sensor`.
    fn get_sensor_handle(&self, sensor: &Sensor) -> Result<Self::SensorHandle, DatabaseError>;

    /// Looks up the handle of the sensor stored under an address.
    fn get_sensor_by_addr(&self, addr: String) -> Result<Self::SensorHandle, DatabaseError>;

    /// Reads the sensor behind a handle.
    fn get_sensor_by_handle(&self, handle: &Self::SensorHandle) -> Result<Sensor, DatabaseError>;

    /// Stores a sensor unless one with its address is stored already, and
    /// tells whether it was stored now.
    fn create_sensor_if_not_exists(&mut self, sensor: &Sensor) -> Result<bool, DatabaseError>;

    /// Reads every stored sensor.
    fn get_sensors(&self) -> Result<Vec<Sensor>, DatabaseError>;

    /// Appends a reading to those of a sensor.
    fn add_reading(
        &mut self,
        sensor: &Self::SensorHandle,
        timestamp: Timestamp,
        reading: &SensorReading,
    ) -> Result<(), DatabaseError>;

    /// Reads every reading of a sensor.
    fn get_readings(&self, handle: &Self::SensorHandle) -> Result<
        Vec<TimestampedSensorReading>,
        DatabaseError,
    >;

    /// Reads the readings of a sensor that were taken after an instant.
    fn get_readings_after(&self, handle: &Self::SensorHandle, timestamp: Timestamp) -> Result<
        Vec<TimestampedSensorReading>,
        DatabaseError,
    >;

    /// Reads the reading of one kind that was stored last for a sensor.
    fn get_latest_reading(&self, handle: &Self::SensorHandle, kind: String) -> Result<
        TimestampedSensorReading,
        DatabaseError,
    >;
}

/// Making a sensor known keeps the addresses of the stored sensors apart.
pub proof fn lemma_created_keeps_one_per_address<H>(
    before: Map<H, SensorView>,
    after: Map<H, SensorView>,
    sensor: SensorView,
    added: bool,
)
    requires
        one_per_address(before),
        created_in(before, after, sensor, added),
    ensures
        one_per_address(after),
{
    if added {
        let fresh = choose|handle: H|
            !(#[trigger] before.contains_key(handle)) && after == before.insert(handle, sensor);
        assert forall|one: H, other: H|
            #[trigger] after.contains_key(one) && #[trigger] after.contains_key(other)
                && after[one].address == after[other].address implies one == other by {
            if one != fresh && other != fresh {
                assert(before.contains_key(one) && before.contains_key(other));
            } else if one != fresh {
                assert(before.contains_key(one));
            } else if other != fresh {
                assert(before.contains_key(other));
            }
        }
    }
}

/// A sensor that was added to a store is what every handle for its address
/// leads to: whatever handle a lookup by the address of the sensor answers
/// with, the sensor behind that handle is the one that was added, with its
/// address and its name.
pub proof fn lemma_added_sensor_is_found<H>(
    before: Map<H, SensorView>,
    after: Map<H, SensorView>,
    sensor: SensorView,
    handle: H,
)
    requires
        created_in(before, after, sensor, true),
        after.contains_key(handle),
        after[handle].address == sensor.address,
    ensures
        after[handle] == sensor,
        holds_address(after, sensor.address),
{
    let fresh = choose|fresh: H|
        !(#[trigger] before.contains_key(fresh)) && after == before.insert(fresh, sensor);
    if handle != fresh {
        assert(before.contains_key(handle));
    }
    assert(after.contains_key(fresh));
}

/// A sensor that was made known to a store, whether it was added or stored
/// already, is stored under its address afterwards.
pub proof fn lemma_known_sensor_is_stored<H>(
    before: Map<H, SensorView>,
    after: Map<H, SensorView>,
    sensor: SensorView,
    added: bool,
)
    requires
        created_in(before, after, sensor, added),
    ensures
        holds_address(after, sensor.address),
{
    if added {
        let fresh = choose|fresh: H|
            !(#[trigger] before.contains_key(fresh)) && after == before.insert(fresh, sensor);
        assert(after.contains_key(fresh));
    }
}

/// How far a storage task has come.
#[derive(Clone, Copy, Debug, PartialEq, Eq, Structural)]
pub enum StoreStage {
    /// The sensor is being made known to storage.
    Ensure,
    /// The handle of the sensor is being looked up.
    Handle,
    /// The reading at this position is being written; the ones before it
    /// are written.
    Insert(usize),
    /// The write of the reading at this position found storage busy; the
    /// pause before the next try is running.
    Waiting(usize),
    /// Every reading is written.
    Done,
    /// A step failed and the task was given up.
    Failed,
}

/// What the caller is to do next for a storage task.
#[derive(Debug)]
pub enum StoreAction {
    /// Store the sensor of the job unless it is stored already.
    CreateSensor,
    /// Look up the handle of the sensor of the job.
    GetHandle,
    /// Write this reading under the handle, with the timestamp of the job.
    AddReading(SensorReading),
    /// Pause for this many seconds.
    Backoff(u64),
    /// Give the task up and report this failure.
    Abort(DatabaseError),
    /// Nothing: the task is over.
    Stop,
}

/// Mathematical content of a [`StoreAction`].
pub enum StoreActionView {
    CreateSensor,
    GetHandle,
    AddReading(SensorReading),
    Backoff(u64),
    Abort(DatabaseErrorView),
    Stop,
}

impl View for StoreAction {
    type V = StoreActionView;

    open spec fn view(&self) -> StoreActionView {
        match self {
            StoreAction::CreateSensor => StoreActionView::CreateSensor,
            StoreAction::GetHandle => StoreActionView::GetHandle,
            StoreAction::AddReading(reading) => StoreActionView::AddReading(*reading),
            StoreAction::Backoff(seconds) => StoreActionView::Backoff(*seconds),
            StoreAction::Abort(error) => StoreActionView::Abort(error@),
            StoreAction::Stop => StoreActionView::Stop,
        }
    }
}

/// The view of the result of a step.
pub open spec fn reply_view(reply: Result<(), DatabaseError>) -> Result<(), DatabaseErrorView> {
    match reply {
        Ok(()) => Ok(()),
        Err(error) => Err(error@),
    }
}

/// The stage in which the reading at `position` is written, or the end of
/// the task if there is no such reading.
pub open spec fn insert_stage(position: int, count: int) -> StoreStage {
    if 0 <= position < count {
        StoreStage::Insert(position as usize)
    } else {
        StoreStage::Done
    }
}

/// The stage after a step ended with `reply`, for a job of `count` readings.
/// The result of a pause does not matter.
pub open spec fn next_stage(stage: StoreStage, count: int, reply: Result<(), DatabaseErrorView>)
    -> StoreStage {
    match stage {
        StoreStage::Ensure => match reply {
            Ok(()) => StoreStage::Handle,
            Err(_) => StoreStage::Failed,
        },
        StoreStage::Handle => match reply {
            Ok(()) => insert_stage(0, count),
            Err(_) => StoreStage::Failed,
        },
        StoreStage::Insert(position) => match reply {
            Ok(()) => insert_stage(position + 1, count),
            Err(DatabaseErrorView::Busy) => StoreStage::Waiting(position),
            Err(_) => StoreStage::Failed,
        },
        StoreStage::Waiting(position) => insert_stage(position as int, count),
        StoreStage::Done => StoreStage::Done,
        StoreStage::Failed => StoreStage::Failed,
    }
}

/// What the caller is to do on entering a stage from `before` with `reply`.
pub open spec fn action_on(
    before: StoreStage,
    stage: StoreStage,
    readings: Seq<SensorReading>,
    reply: Result<(), DatabaseErrorView>,
) -> StoreActionView {
    match stage {
        StoreStage::Ensure => StoreActionView::CreateSensor,
        StoreStage::Handle => StoreActionView::GetHandle,
        StoreStage::Insert(position) => StoreActionView::AddReading(readings[position as int]),
        StoreStage::Waiting(_) => StoreActionView::Backoff(BUSY_BACKOFF_SECS),
        StoreStage::Done => StoreActionView::Stop,
        StoreStage::Failed => match reply {
            Err(error) if before != StoreStage::Failed => StoreActionView::Abort(error),
            _ => StoreActionView::Stop,
        },
    }
}

/// What the caller is to do for a task that stands in `stage` and has not
/// yet reported on that stage: for a new task, to make the sensor known.
pub open spec fn standing_action(stage: StoreStage, readings: Seq<SensorReading>)
    -> StoreActionView {
    action_on(stage, stage, readings, Ok(()))
}

/// The number of readings of a job that storage has acknowledged when the
/// task is in `stage`.
pub open spec fn written(stage: StoreStage, count: int) -> int {
    match stage {
        StoreStage::Insert(position) => position as int,
        StoreStage::Waiting(position) => position as int,
        StoreStage::Done => count,
        _ => 0,
    }
}

/// The work of bringing the readings of one poll to storage.
#[derive(Debug)]
pub struct StoreTask {
    job: StoreJob,
    stage: StoreStage,
}

impl StoreTask {
    /// The job that the task works on.
    pub closed spec fn job(&self) -> StoreJobView {
        self.job@
    }

    /// How far the task has come.
    pub closed spec fn stage(&self) -> StoreStage {
        self.stage
    }

    /// The position of the reading that is being written lies within the
    /// job.
    #[verifier::type_invariant]
    spec fn valid(self) -> bool {
        match self.stage {
            StoreStage::Insert(position) => position < self.job.readings@.len(),
            StoreStage::Waiting(position) => position < self.job.readings@.len(),
            _ => true,
        }
    }

    /// Starts the work on a job. The first thing to do is to make the
    /// sensor known to storage.
    pub fn new(job: StoreJob) -> (task: Self)
        ensures
            task.job() == job@,
            task.stage() == StoreStage::Ensure,
    {
        StoreTask { job, stage: StoreStage::Ensure }
    }

    /// The job that the task works on.
    pub fn details(&self) -> (job: &StoreJob)
        ensures
            job@ == self.job(),
    {
        &self.job
    }

    /// How far the task has come.
    pub fn progress(&self) -> (stage: StoreStage)
        ensures
            stage == self.stage(),
    {
        self.stage
    }

    /// Tells whether the task is over, one way or the other.
    pub fn is_over(&self) -> (over: bool)
        ensures
            over == (self.stage() == StoreStage::Done || self.stage() == StoreStage::Failed),
    {
        match self.stage {
            StoreStage::Done => true,
            StoreStage::Failed => true,
            _ => false,
        }
    }

    /// Says what is to be done for the task as it stands. For a new task
    /// this is the first thing to do: to make the sensor known to storage.
    pub fn first_action(&self) -> (action: StoreAction)
        ensures
            action@ == standing_action(self.stage(), self.job().readings),
            self.stage() == StoreStage::Ensure ==> action@ == StoreActionView::CreateSensor,
    {
        proof {
            use_type_invariant(self);
        }
        match self.stage {
            StoreStage::Ensure => StoreAction::CreateSensor,
            StoreStage::Handle => StoreAction::GetHandle,
            StoreStage::Insert(position) => StoreAction::AddReading(self.job.readings[position]),
            StoreStage::Waiting(_) => StoreAction::Backoff(BUSY_BACKOFF_SECS),
            StoreStage::Done => StoreAction::Stop,
            StoreStage::Failed => StoreAction::Stop,
        }
    }

    /// The stage in which the reading at `position` is written.
    fn insert_at(&self, position: usize) -> (stage: StoreStage)
        ensures
            stage == insert_stage(position as int, self.job().readings.len() as int),
    {
        if position < self.job.readings.len() {
            StoreStage::Insert(position)
        } else {
            StoreStage::Done
        }
    }

    /// Takes the result of the step that was asked for last and says what to
    /// do next.
    ///
    /// A failure to make the sensor known or to find its handle ends the
    /// task. A write that succeeded is followed by the next reading, or by
    /// the end of the task after the last one. A write that found storage
    /// busy is followed by a pause of [`BUSY_BACKOFF_SECS`] and then by the
    /// same write again. A write that failed otherwise ends the task.
    pub fn advance(&mut self, reply: Result<(), DatabaseError>) -> (action: StoreAction)
        ensures
            final(self).job() == old(self).job(),
            final(self).stage() == next_stage(
                old(self).stage(),
                old(self).job().readings.len() as int,
                reply_view(reply),
            ),
            action@ == action_on(
                old(self).stage(),
                final(self).stage(),
                old(self).job().readings,
                reply_view(reply),
            ),
    {
        proof {
            use_type_invariant(&*self);
        }
        let count = self.job.readings.len();
        assert(self.job().readings.len() == count);
        let next = match self.stage {
            StoreStage::Ensure => match &reply {
                Ok(()) => StoreStage::Handle,
                Err(_) => StoreStage::Failed,
            },
            StoreStage::Handle => match &reply {
                Ok(()) => self.insert_at(0),
                Err(_) => StoreStage::Failed,
            },
            StoreStage::Insert(position) => match &reply {
                Ok(()) => {
                    self.insert_at(position + 1)
                },
                Err(DatabaseError::Busy) => StoreStage::Waiting(position),
                Err(_) => StoreStage::Failed,
            },
            StoreStage::Waiting(position) => self.insert_at(position),
            StoreStage::Done => StoreStage::Done,
            StoreStage::Failed => StoreStage::Failed,
        };
        let action = match next {
            StoreStage::Ensure => StoreAction::CreateSensor,
            StoreStage::Handle => StoreAction::GetHandle,
            StoreStage::Insert(position) => StoreAction::AddReading(self.job.readings[position]),
            StoreStage::Waiting(_) => StoreAction::Backoff(BUSY_BACKOFF_SECS),
            StoreStage::Done => StoreAction::Stop,
            StoreStage::Failed => match reply {
                Err(error) => match self.stage {
                    StoreStage::Failed => StoreAction::Stop,
                    _ => StoreAction::Abort(error),
                },
                Ok(()) => StoreAction::Stop,
            },
        };
        self.stage = next;
        action
    }
}

/// The storing of what one poll sweep brought in: the jobs are taken up one
/// after the other, and a job that was given up ends the storing for the
/// sweep.
#[derive(Debug)]
pub struct SweepStore {
    jobs: Vec<StoreJob>,
    halted: bool,
}

/// Mathematical content of a [`SweepStore`].
pub struct SweepStoreView {
    /// The jobs that are not taken up yet, next first.
    pub pending: Seq<StoreJobView>,
    /// Whether a job was given up.
    pub halted: bool,
}

impl View for SweepStore {
    type V = SweepStoreView;

    closed spec fn view(&self) -> SweepStoreView {
        SweepStoreView { pending: job_views(self.jobs@), halted: self.halted }
    }
}

impl SweepStoreView {
    /// Whether another job is taken up.
    pub open spec fn goes_on(self) -> bool {
        !self.halted && self.pending.len() > 0
    }

    /// After the next job was asked for.
    pub open spec fn taken(self) -> SweepStoreView {
        if self.goes_on() {
            SweepStoreView { pending: self.pending.skip(1), ..self }
        } else {
            self
        }
    }

    /// After a task ended in `stage`: the storing goes on only if every
    /// reading of the task was written.
    pub open spec fn ended(self, stage: StoreStage) -> SweepStoreView {
        SweepStoreView { halted: self.halted || stage != StoreStage::Done, ..self }
    }
}

impl SweepStore {
    /// The storing of the given jobs, in their order.
    pub fn new(jobs: Vec<StoreJob>) -> (store: Self)
        ensures
            store@ == (SweepStoreView { pending: job_views(jobs@), halted: false }),
    {
        SweepStore { jobs, halted: false }
    }

    /// Hands out the task for the next job, unless a job was given up or
    /// none is left.
    pub fn next_task(&mut self) -> (task: Option<StoreTask>)
        ensures
            final(self)@ == old(self)@.taken(),
            task is Some <==> old(self)@.goes_on(),
            task matches Some(next) ==> next.job() == old(self)@.pending[0] && next.stage()
                == StoreStage::Ensure,
    {
        if self.halted || self.jobs.len() == 0 {
            None
        } else {
            let ghost before = self.jobs@;
            let job = self.jobs.remove(0);
            assert(job_views(self.jobs@) =~= job_views(before).skip(1));
            Some(StoreTask::new(job))
        }
    }

    /// Takes note of the stage in which the task that was handed out last
    /// ended. Unless every reading was written, no further job is taken up.
    pub fn task_ended(&mut self, stage: StoreStage)
        ensures
            final(self)@ == old(self)@.ended(stage),
    {
        match stage {
            StoreStage::Done => {},
            _ => {
                self.halted = true;
            },
        }
    }
}

/// Once a job was given up, no job is taken up any more, whatever is
/// reported afterwards.
pub proof fn lemma_given_up_job_ends_the_storing(store: SweepStoreView, stage: StoreStage)
    requires
        stage != StoreStage::Done,
    ensures
        !store.ended(stage).goes_on(),
        store.ended(stage).taken() == store.ended(stage),
        forall|later: StoreStage| !(#[trigger] store.ended(stage).ended(later)).goes_on(),
{
}

/// A write that finds storage busy is tried again with the same reading
/// after the pause, and once that try succeeds the task moves on by exactly
/// one reading: nothing is written twice and nothing is left out.
pub proof fn lemma_busy_write_is_retried_once(
    readings: Seq<SensorReading>,
    position: usize,
    slept: Result<(), DatabaseErrorView>,
)
    requires
        position < readings.len() <= usize::MAX,
    ensures
        ({
            let count = readings.len() as int;
            let busy = Err::<(), DatabaseErrorView>(DatabaseErrorView::Busy);
            let writing = StoreStage::Insert(position);
            let waiting = next_stage(writing, count, busy);
            let again = next_stage(waiting, count, slept);
            let onward = next_stage(again, count, Ok(()));
            &&& waiting == StoreStage::Waiting(position)
            &&& action_on(writing, waiting, readings, busy) == StoreActionView::Backoff(
                BUSY_BACKOFF_SECS,
            )
            &&& again == writing
            &&& action_on(waiting, again, readings, slept) == StoreActionView::AddReading(
                readings[position as int],
            )
            &&& written(waiting, count) == position
            &&& written(again, count) == position
            &&& written(onward, count) == position + 1
        }),
{
}

/// Each acknowledged write moves the task on by one reading, and nothing
/// else moves it: the number of acknowledged readings grows by one exactly
/// when a write is acknowledged.
pub proof fn lemma_written_counts_acknowledged_writes(
    stage: StoreStage,
    count: int,
    reply: Result<(), DatabaseErrorView>,
)
    requires
        0 <= count <= usize::MAX,
        stage matches StoreStage::Insert(position) ==> position < count,
        stage matches StoreStage::Waiting(position) ==> position < count,
        next_stage(stage, count, reply) != StoreStage::Failed,
    ensures
        written(next_stage(stage, count, reply), count) == written(stage, count) + (if stage is Insert
            && reply is Ok {
            1int
        } else {
            0int
        }),
{
}

} // verus!
