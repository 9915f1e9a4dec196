//! The device registry: it reacts to discovery and loss of devices, admits
//! sensors that pass inspection, and sorts out the results of a poll sweep.

use vstd::prelude::*;
use crate::alpha_sensor::{AlphaSensor, AlphaSensorPollError, AlphaSensorView, Exchange};
use crate::consistency::{
    lemma_disconnected_consistent,
    lemma_discovered_consistent,
    lemma_inspected_consistent,
    lemma_popped_consistent,
    lemma_swept_consistent,
};
use crate::peripheral::{
    address_text,
    clone_name,
    same_address,
    Characteristic,
    PeripheralRef,
    PeripheralView,
};
use crate::registry::{
    domain_sensor,
    inspection_verdict,
    queued_elsewhere,
    readings_of,
    session_at,
    session_elsewhere,
    session_texts,
    verdict_of,
    DepartureView,
    InspectVerdict,
    InspectionOrderView,
    PollReport,
    PollVerdictView,
    RegistryView,
    StoreJobView,
};
use crate::sensor::{Sensor, SensorFamily, SensorReading, SensorStatus, Timestamp};
use crate::state::{status_of, SensorsState};

verus! {

/// The views of a list of devices.
pub open spec fn peripheral_views(list: Seq<PeripheralRef>) -> Seq<PeripheralView> {
    list.map_values(|peripheral: PeripheralRef| peripheral@)
}

/// The views of a list of sessions.
pub open spec fn session_views(list: Seq<AlphaSensor>) -> Seq<AlphaSensorView> {
    list.map_values(|session: AlphaSensor| session@)
}

/// What the registry asks for after taking a device off the queue.
#[derive(Debug)]
pub enum InspectionOrder {
    /// The queue was empty.
    Idle,
    /// The device is to be connected to and inspected.
    Probe(PeripheralRef),
}

impl View for InspectionOrder {
    type V = InspectionOrderView;

    open spec fn view(&self) -> InspectionOrderView {
        match self {
            InspectionOrder::Idle => InspectionOrderView::Idle,
            InspectionOrder::Probe(peripheral) => InspectionOrderView::Probe(peripheral@),
        }
    }
}

/// One sensor that left the active set because its device was lost.
#[derive(Debug)]
pub struct Departure {
    /// The sensor whose session ended.
    pub sensor: Sensor,
    /// Whether the sensor was online until now. Where it was not, the online
    /// set had lost step with the sessions; this is reported, not repaired.
    pub was_online: bool,
}

impl View for Departure {
    type V = DepartureView;

    open spec fn view(&self) -> DepartureView {
        DepartureView { sensor: self.sensor@, was_online: self.was_online }
    }
}

/// The views of a list of departures.
pub open spec fn departure_views(list: Seq<Departure>) -> Seq<DepartureView> {
    list.map_values(|departure: Departure| departure@)
}

/// The readings of one poll, ready to be written to storage under the
/// sensor's identity.
#[derive(Debug)]
pub struct StoreJob {
    pub sensor: Sensor,
    pub timestamp: Timestamp,
    /// The readings in the order in which they are to be written.
    pub readings: Vec<SensorReading>,
}

impl View for StoreJob {
    type V = StoreJobView;

    open spec fn view(&self) -> StoreJobView {
        StoreJobView { sensor: self.sensor@, timestamp: self.timestamp, readings: self.readings@ }
    }
}

/// The views of a list of storage jobs.
pub open spec fn job_views(list: Seq<StoreJob>) -> Seq<StoreJobView> {
    list.map_values(|job: StoreJob| job@)
}

/// What follows from one poll of one session.
#[derive(Debug)]
pub enum PollVerdict {
    /// The session stays and the readings go to storage.
    Store(StoreJob),
    /// The session stays; the poll failed in a way that is taken to be
    /// transient.
    Skip(AlphaSensorPollError),
    /// The command could not be sent: the session ends and the device goes
    /// back to the queue.
    Requeue,
}

impl View for PollVerdict {
    type V = PollVerdictView;

    open spec fn view(&self) -> PollVerdictView {
        match self {
            PollVerdict::Store(job) => PollVerdictView::Store(job@),
            PollVerdict::Skip(error) => PollVerdictView::Skip(*error),
            PollVerdict::Requeue => PollVerdictView::Requeue,
        }
    }
}

impl PollVerdict {
    /// Tells whether the session stays active.
    pub fn keeps_session(&self) -> (keeps: bool)
        ensures
            keeps == !(self@ is Requeue),
    {
        match self {
            PollVerdict::Requeue => false,
            _ => true,
        }
    }
}

/// What a poll sweep leaves for the caller to do.
#[derive(Debug)]
pub struct SweepOutcome {
    /// The readings to write to storage, in the order of the sessions.
    pub jobs: Vec<StoreJob>,
    /// The sessions that ended; their connections are to be closed.
    pub dropped: Vec<AlphaSensor>,
}

/// The persistable identity of the sensor behind a session.
fn sensor_of(alpha: &AlphaSensor) -> (sensor: Sensor)
    ensures
        sensor@ == domain_sensor(alpha@.peripheral),
{
    Sensor {
        family: SensorFamily::Alpha,
        address: alpha.peripheral().address_string(),
        name: clone_name(&alpha.peripheral().name),
    }
}

/// Takes every device with the given address out of a queue, keeping the
/// order of the others.
fn drop_queued(queue: &mut Vec<PeripheralRef>, address: &[u8; 6])
    ensures
        peripheral_views(final(queue)@) == peripheral_views(old(queue)@).filter(
            queued_elsewhere(address@),
        ),
{
    let ghost before = peripheral_views(queue@);
    let ghost stays = queued_elsewhere(address@);
    let mut i: usize = 0;
    let mut done: Ghost<int> = Ghost(0);
    while i < queue.len()
        invariant
            0 <= done@ <= before.len(),
            i <= queue@.len(),
            queue@.len() - i == before.len() - done@,
            peripheral_views(queue@).take(i as int) == before.take(done@).filter(stays),
            peripheral_views(queue@).skip(i as int) == before.skip(done@),
            stays == queued_elsewhere(address@),
        decreases queue@.len() - i,
    {
        let ghost current = peripheral_views(queue@);
        proof {
            assert(current[i as int] == current.skip(i as int)[0]);
            assert(before[done@] == before.skip(done@)[0]);
            assert(before.take(done@ + 1) == before.take(done@).push(before[done@]));
            before.take(done@).lemma_filter_push(before[done@], stays);
            assert(before.skip(done@ + 1) == before.skip(done@).skip(1));
        }
        if same_address(&queue[i].address, address) {
            queue.remove(i);
            proof {
                let shorter = peripheral_views(queue@);
                assert(shorter =~= current.remove(i as int));
                assert(shorter.take(i as int) == current.take(i as int));
                assert(shorter.skip(i as int) == current.skip(i as int).skip(1));
            }
        } else {
            assert(current.take(i as int + 1) == current.take(i as int).push(current[i as int]));
            assert(current.skip(i as int + 1) == current.skip(i as int).skip(1));
            i = i + 1;
        }
        proof {
            done@ = done@ + 1;
        }
    }
    proof {
        assert(before.take(done@) == before);
        assert(peripheral_views(queue@).take(i as int) == peripheral_views(queue@));
    }
}

/// Ends every session with the given address, keeping the order of the
/// others, and takes the sensor of each ended session out of the online set.
fn drop_sessions<S: SensorsState>(
    sessions: &mut Vec<AlphaSensor>,
    state: &mut S,
    address: &[u8; 6],
) -> (lost: Vec<Departure>)
    ensures
        session_views(final(sessions)@) == session_views(old(sessions)@).filter(
            session_elsewhere(address@),
        ),
        final(state).online() == if session_views(old(sessions)@).filter(
            session_at(address@),
        ).len() > 0 {
            old(state).online().remove(address_text(address@))
        } else {
            old(state).online()
        },
        departure_views(lost@) == (RegistryView {
            queue: Seq::empty(),
            sessions: session_views(old(sessions)@),
            online: old(state).online(),
        }).departures(address@),
{
    let ghost before = session_views(sessions@);
    let ghost online = state.online();
    let ghost text = address_text(address@);
    let ghost stays = session_elsewhere(address@);
    let ghost leaves = session_at(address@);
    let mut lost: Vec<Departure> = Vec::new();
    let mut i: usize = 0;
    let mut done: Ghost<int> = Ghost(0);
    while i < sessions.len()
        invariant
            0 <= done@ <= before.len(),
            i <= sessions@.len(),
            sessions@.len() - i == before.len() - done@,
            session_views(sessions@).take(i as int) == before.take(done@).filter(stays),
            session_views(sessions@).skip(i as int) == before.skip(done@),
            stays == session_elsewhere(address@),
            leaves == session_at(address@),
            text == address_text(address@),
            lost@.len() == before.take(done@).filter(leaves).len(),
            forall|k: int|
                0 <= k < lost@.len() ==> (#[trigger] lost@[k])@ == (DepartureView {
                    sensor: domain_sensor(before.take(done@).filter(leaves)[k].peripheral),
                    was_online: k == 0 && online.contains(text),
                }),
            state.online() == if lost@.len() > 0 {
                online.remove(text)
            } else {
                online
            },
        decreases sessions@.len() - i,
    {
        let ghost current = session_views(sessions@);
        let ghost gone = before.take(done@).filter(leaves);
        proof {
            assert(current[i as int] == current.skip(i as int)[0]);
            assert(before[done@] == before.skip(done@)[0]);
            assert(before.take(done@ + 1) == before.take(done@).push(before[done@]));
            before.take(done@).lemma_filter_push(before[done@], stays);
            before.take(done@).lemma_filter_push(before[done@], leaves);
            assert(before.skip(done@ + 1) == before.skip(done@).skip(1));
        }
        if same_address(&sessions[i].peripheral().address, address) {
            let sensor = sensor_of(&sessions[i]);
            let ghost earlier = state.online();
            let was_online = match state.remove(&sensor) {
                Ok(()) => true,
                Err(()) => false,
            };
            let ghost count = lost@.len();
            lost.push(Departure { sensor, was_online });
            sessions.remove(i);
            proof {
                let shorter = session_views(sessions@);
                assert(shorter =~= current.remove(i as int));
                assert(shorter.take(i as int) == current.take(i as int));
                assert(shorter.skip(i as int) == current.skip(i as int).skip(1));
                assert(sensor.address@ == text);
                assert(state.online() =~= online.remove(text));
                let longer = before.take(done@ + 1).filter(leaves);
                assert(longer == gone.push(before[done@]));
                assert forall|k: int| 0 <= k < lost@.len() implies (#[trigger] lost@[k])@
                    == (DepartureView {
                    sensor: domain_sensor(longer[k].peripheral),
                    was_online: k == 0 && online.contains(text),
                }) by {
                    if k < count {
                        assert(longer[k] == gone[k]);
                    }
                }
            }
        } else {
            assert(current.take(i as int + 1) == current.take(i as int).push(current[i as int]));
            assert(current.skip(i as int + 1) == current.skip(i as int).skip(1));
            i = i + 1;
        }
        proof {
            done@ = done@ + 1;
        }
    }
    proof {
        assert(before.take(done@) == before);
        assert(session_views(sessions@).take(i as int) == session_views(sessions@));
        let model = RegistryView { queue: Seq::empty(), sessions: before, online };
        assert(departure_views(lost@) =~= model.departures(address@));
    }
    lost
}

/// The registry of devices, with the online set it keeps up to date.
pub struct BleMaster<S: SensorsState> {
    to_inspect: Vec<PeripheralRef>,
    sensors: Vec<AlphaSensor>,
    state: S,
}

impl<S: SensorsState> View for BleMaster<S> {
    type V = RegistryView;

    closed spec fn view(&self) -> RegistryView {
        RegistryView {
            queue: peripheral_views(self.to_inspect@),
            sessions: session_views(self.sensors@),
            online: self.state.online(),
        }
    }
}

impl<S: SensorsState> BleMaster<S> {
    /// A registry with nothing queued and no session, around the given
    /// online set.
    pub fn new(state: S) -> (master: Self)
        ensures
            master@ == (RegistryView {
                queue: Seq::empty(),
                sessions: Seq::empty(),
                online: state.online(),
            }),
            state.online() == Set::<Seq<char>>::empty() ==> master@.consistent(),
    {
        let master = BleMaster { to_inspect: Vec::new(), sensors: Vec::new(), state };
        assert(master@.queue =~= Seq::empty());
        assert(master@.sessions =~= Seq::empty());
        assert(session_texts(master@.sessions) =~= Set::<Seq<char>>::empty());
        master
    }

    /// The online set.
    pub fn state(&self) -> (state: &S)
        ensures
            state.online() == self@.online,
    {
        &self.state
    }

    /// The devices waiting to be inspected.
    pub fn queue(&self) -> (queue: &Vec<PeripheralRef>)
        ensures
            peripheral_views(queue@) == self@.queue,
    {
        &self.to_inspect
    }

    /// The sensors with a live session, in the order in which a sweep polls
    /// them.
    pub fn sessions(&self) -> (sessions: &Vec<AlphaSensor>)
        ensures
            session_views(sessions@) == self@.sessions,
    {
        &self.sensors
    }

    /// Tells whether `sensor` has a live session.
    pub fn get_status(&self, sensor: &Sensor) -> (status: SensorStatus)
        ensures
            status == status_of(self@.online.contains(sensor.address@)),
    {
        self.state.get_status(sensor)
    }

    /// Puts a discovered device at the end of the queue, whatever is queued
    /// or active already.
    pub fn on_discovered(&mut self, peripheral: PeripheralRef)
        ensures
            final(self)@ == old(self)@.discovered(peripheral@),
            old(self)@.consistent() && !old(self)@.knows(peripheral@.address)
                ==> final(self)@.consistent(),
    {
        proof {
            if self@.consistent() && !self@.knows(peripheral@.address) {
                lemma_discovered_consistent(self@, peripheral@);
            }
        }
        self.to_inspect.push(peripheral);
        assert(self@.queue =~= old(self)@.queue.push(peripheral@));
    }

    /// Takes the most recently discovered device off the queue and hands it
    /// out to be connected to and inspected. There is nothing to do if the
    /// queue was empty.
    pub fn pop_and_inspect(&mut self) -> (order: InspectionOrder)
        ensures
            final(self)@ == old(self)@.popped(),
            order@ == old(self)@.next_order(),
            old(self)@.consistent() ==> final(self)@.consistent(),
    {
        proof {
            if self@.consistent() {
                lemma_popped_consistent(self@);
            }
        }
        match self.to_inspect.pop() {
            None => {
                assert(self@.queue =~= old(self)@.queue);
                InspectionOrder::Idle
            },
            Some(peripheral) => {
                assert(self@.queue =~= old(self)@.queue.drop_last());
                assert(old(self)@.queue.last() == peripheral@);
                InspectionOrder::Probe(peripheral)
            },
        }
    }

    /// The persistable identity of the sensor behind a session.
    pub fn sensor_from_alpha(alpha: &AlphaSensor) -> (sensor: Sensor)
        ensures
            sensor@ == domain_sensor(alpha@.peripheral),
    {
        sensor_of(alpha)
    }

    /// Concludes the inspection of a device that was taken off the queue.
    ///
    /// `discovered` holds the endpoints found on the device, or `None` if
    /// connecting or listing failed; `handshake` holds the exchange that
    /// followed the hello command, or `None` if none was sent. The device
    /// becomes an active sensor, and its sensor goes online, exactly if it
    /// has the service endpoint and acknowledged the hello command, whatever
    /// its name. Otherwise it is forgotten, and the connection is to be
    /// closed.
    pub fn inspect(
        &mut self,
        peripheral: PeripheralRef,
        discovered: &Option<Vec<Characteristic>>,
        handshake: &Option<Exchange>,
    ) -> (verdict: InspectVerdict)
        ensures
            verdict == inspection_verdict(*discovered, *handshake),
            final(self)@ == old(self)@.inspected(peripheral@, *discovered, *handshake),
            old(self)@.consistent() && !old(self)@.knows(peripheral@.address)
                ==> final(self)@.consistent(),
    {
        proof {
            if self@.consistent() && !self@.knows(peripheral@.address) {
                lemma_inspected_consistent(self@, peripheral@, *discovered, *handshake);
            }
        }
        match AlphaSensor::inspect(discovered) {
            None => InspectVerdict::Disconnect,
            Some(characteristic) => match handshake {
                None => InspectVerdict::Disconnect,
                Some(exchange) => match AlphaSensor::try_new(peripheral, characteristic, exchange) {
                    None => InspectVerdict::Disconnect,
                    Some(sensor) => {
                        let domain = sensor_of(&sensor);
                        proof {
                            assert(session_views(self.sensors@.push(sensor)) =~= session_views(
                                self.sensors@,
                            ).push(sensor@));
                        }
                        self.sensors.push(sensor);
                        self.state.add(domain);
                        InspectVerdict::Admitted
                    },
                },
            },
        }
    }

    /// Decides what follows from one poll of `sensor`: a reading goes to
    /// storage under the sensor's identity and with the instant of the
    /// report; a failed send ends the session; any other failure is passed
    /// over.
    pub fn try_poll_sensor(&self, sensor: &AlphaSensor, report: &PollReport) -> (verdict:
        PollVerdict)
        ensures
            verdict@ == verdict_of(sensor@, *report),
    {
        match sensor.poll(&report.exchange) {
            Ok(reading) => {
                let mut readings: Vec<SensorReading> = Vec::new();
                readings.push(SensorReading::Temperature(reading.temperature as i32));
                readings.push(SensorReading::Humidity(reading.humidity));
                assert(readings@ =~= readings_of(reading));
                PollVerdict::Store(
                    StoreJob { sensor: sensor_of(sensor), timestamp: report.at, readings },
                )
            },
            Err(AlphaSensorPollError::SendFailed) => PollVerdict::Requeue,
            Err(error) => PollVerdict::Skip(error),
        }
    }

    /// Sorts out a poll sweep: `reports[i]` is what came of polling session
    /// `i`, as [`BleMaster::sessions`] lists them. A session whose command
    /// could not be sent leaves the active set, its sensor goes offline and
    /// its device goes back to the queue; every other session stays. Where
    /// there are fewer reports than sessions, the sessions without a report
    /// stay untouched; reports beyond the last session are not looked at.
    pub fn poll_all(&mut self, reports: &Vec<PollReport>) -> (outcome: SweepOutcome)
        ensures
            final(self)@ == old(self)@.swept(reports@),
            job_views(outcome.jobs@) == old(self)@.sweep_jobs(
                reports@,
                old(self)@.polled(reports@),
            ),
            session_views(outcome.dropped@) == old(self)@.sweep_dropped(
                reports@,
                old(self)@.polled(reports@),
            ),
            old(self)@.consistent() ==> final(self)@.consistent(),
    {
        let ghost start = self@;
        proof {
            if start.consistent() {
                lemma_swept_consistent(start, reports@);
            }
        }
        let mut jobs: Vec<StoreJob> = Vec::new();
        let mut dropped: Vec<AlphaSensor> = Vec::new();
        let mut i: usize = 0;
        let mut done: usize = 0;
        proof {
            assert(session_views(self.sensors@).take(0) =~= Seq::empty());
            assert(session_views(self.sensors@).skip(0) =~= start.sessions);
            assert(job_views(jobs@) =~= Seq::empty());
            assert(session_views(dropped@) =~= Seq::empty());
        }
        while done < reports.len() && i < self.sensors.len()
            invariant
                done <= reports@.len(),
                done <= start.sessions.len(),
                i <= self.sensors@.len(),
                self.sensors@.len() - i == start.sessions.len() - done,
                peripheral_views(self.to_inspect@) == start.sweep_prefix(reports@, done as nat).queue,
                session_views(self.sensors@).take(i as int) == start.sweep_prefix(
                    reports@,
                    done as nat,
                ).sessions,
                session_views(self.sensors@).skip(i as int) == start.sessions.skip(done as int),
                self.state.online() == start.sweep_prefix(reports@, done as nat).online,
                job_views(jobs@) == start.sweep_jobs(reports@, done as nat),
                session_views(dropped@) == start.sweep_dropped(reports@, done as nat),
            decreases reports@.len() - done,
        {
            let ghost current = session_views(self.sensors@);
            let ghost prefix = start.sweep_prefix(reports@, done as nat);
            proof {
                assert(current[i as int] == current.skip(i as int)[0]);
                assert(start.sessions[done as int] == start.sessions.skip(done as int)[0]);
                assert(start.sessions.skip(done as int + 1) == start.sessions.skip(
                    done as int,
                ).skip(1));
                assert(start.sweep_prefix(reports@, (done + 1) as nat) == prefix.after_poll(
                    start.sessions[done as int],
                    reports@[done as int],
                ));
            }
            let verdict = self.try_poll_sensor(&self.sensors[i], &reports[done]);
            match verdict {
                PollVerdict::Requeue => {
                    let session = self.sensors.remove(i);
                    let sensor = sensor_of(&session);
                    let _ = self.state.remove(&sensor);
                    let requeued = session.peripheral().clone();
                    proof {
                        assert(peripheral_views(self.to_inspect@.push(requeued))
                            =~= peripheral_views(self.to_inspect@).push(session@.peripheral));
                        assert(session_views(dropped@.push(session)) =~= session_views(
                            dropped@,
                        ).push(session@));
                    }
                    self.to_inspect.push(requeued);
                    dropped.push(session);
                    proof {
                        let shorter = session_views(self.sensors@);
                        assert(shorter =~= current.remove(i as int));
                        assert(shorter.take(i as int) == current.take(i as int));
                        assert(shorter.skip(i as int) == current.skip(i as int).skip(1));
                    }
                },
                PollVerdict::Store(job) => {
                    proof {
                        assert(job_views(jobs@.push(job)) =~= job_views(jobs@).push(job@));
                        assert(current.take(i as int + 1) == current.take(i as int).push(
                            current[i as int],
                        ));
                        assert(current.skip(i as int + 1) == current.skip(i as int).skip(1));
                    }
                    jobs.push(job);
                    i = i + 1;
                },
                PollVerdict::Skip(_) => {
                    proof {
                        assert(current.take(i as int + 1) == current.take(i as int).push(
                            current[i as int],
                        ));
                        assert(current.skip(i as int + 1) == current.skip(i as int).skip(1));
                    }
                    i = i + 1;
                },
            }
            done = done + 1;
        }
        proof {
            assert(done as nat == start.polled(reports@));
            let whole = session_views(self.sensors@);
            assert(whole =~= whole.take(i as int) + whole.skip(i as int));
        }
        SweepOutcome { jobs, dropped }
    }

    /// Forgets a lost device: every session and every queued entry with its
    /// address goes, and the sensor of each ended session is taken out of the
    /// online set. The result lists the sensors whose sessions ended.
    pub fn on_disconnect(&mut self, address: [u8; 6]) -> (lost: Vec<Departure>)
        ensures
            final(self)@ == old(self)@.disconnected(address@),
            departure_views(lost@) == old(self)@.departures(address@),
            old(self)@.consistent() ==> final(self)@.consistent(),
    {
        proof {
            if self@.consistent() {
                lemma_disconnected_consistent(self@, address@);
            }
        }
        let lost = drop_sessions(&mut self.sensors, &mut self.state, &address);
        drop_queued(&mut self.to_inspect, &address);
        lost
    }
}

} // verus!
