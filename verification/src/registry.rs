//! The mathematical model of the device registry: what it holds and how each
//! event changes it.
//!
//! The registry holds three things: the devices waiting to be inspected, the
//! sensors with a live session, and the addresses of the sensors that count
//! as online. The functions here say, for each event, what the registry looks
//! like afterwards; the executable registry is proved to follow them.

use vstd::prelude::*;
use crate::alpha_sensor::{
    is_hello,
    poll_result,
    service_position,
    AlphaSensorPollError,
    AlphaSensorReading,
    AlphaSensorView,
    Exchange,
};
use crate::peripheral::{address_text, Characteristic, PeripheralView};
use crate::sensor::{SensorFamily, SensorReading, SensorView, Timestamp};

verus! {

/// The persistable identity of the sensor behind a device.
pub open spec fn domain_sensor(peripheral: PeripheralView) -> SensorView {
    SensorView {
        family: SensorFamily::Alpha,
        address: address_text(peripheral.address),
        name: peripheral.name,
    }
}

/// The test that a queued device has another address than `address`.
pub open spec fn queued_elsewhere(address: Seq<u8>) -> spec_fn(PeripheralView) -> bool {
    |queued: PeripheralView| queued.address != address
}

/// The test that a session belongs to another address than `address`.
pub open spec fn session_elsewhere(address: Seq<u8>) -> spec_fn(AlphaSensorView) -> bool {
    |session: AlphaSensorView| session.peripheral.address != address
}

/// The test that a session belongs to `address`.
pub open spec fn session_at(address: Seq<u8>) -> spec_fn(AlphaSensorView) -> bool {
    |session: AlphaSensorView| session.peripheral.address == address
}

/// The addresses of a list of devices, in order.
pub open spec fn queue_addresses(queue: Seq<PeripheralView>) -> Seq<Seq<u8>> {
    queue.map_values(|queued: PeripheralView| queued.address)
}

/// The addresses of a list of sessions, in order.
pub open spec fn session_addresses(sessions: Seq<AlphaSensorView>) -> Seq<Seq<u8>> {
    sessions.map_values(|session: AlphaSensorView| session.peripheral.address)
}

/// The textual addresses of the sensors behind a list of sessions.
pub open spec fn session_texts(sessions: Seq<AlphaSensorView>) -> Set<Seq<char>> {
    Set::new(
        |text: Seq<char>|
            exists|i: int|
                0 <= i < sessions.len() && text == address_text(
                    #[trigger] sessions[i].peripheral.address,
                ),
    )
}

/// One sensor that left the active set because its device was lost.
pub struct DepartureView {
    pub sensor: SensorView,
    pub was_online: bool,
}

/// What the registry asks for after taking a device off the queue.
pub enum InspectionOrderView {
    /// The queue was empty.
    Idle,
    /// The device is to be connected to and inspected.
    Probe(PeripheralView),
}

/// How the inspection of a device ended.
#[derive(Clone, Copy, Debug, PartialEq, Eq, Structural)]
pub enum InspectVerdict {
    /// The device is not a sensor, or did not complete the handshake. It is
    /// forgotten, and the connection is to be closed.
    Disconnect,
    /// The device completed the handshake and is now an active sensor.
    Admitted,
}

/// One poll of one session, as observed: the exchange and the instant at
/// which it ended.
#[derive(Debug)]
pub struct PollReport {
    pub exchange: Exchange,
    pub at: Timestamp,
}

/// The readings to store for one measurement: the temperature, then the
/// humidity.
pub open spec fn readings_of(reading: AlphaSensorReading) -> Seq<SensorReading> {
    seq![
        SensorReading::Temperature(reading.temperature as i32),
        SensorReading::Humidity(reading.humidity),
    ]
}

/// Mathematical content of a [`crate::master::StoreJob`].
pub struct StoreJobView {
    pub sensor: SensorView,
    pub timestamp: Timestamp,
    pub readings: Seq<SensorReading>,
}

/// What follows from one poll of one session.
pub enum PollVerdictView {
    /// The session stays and the readings go to storage.
    Store(StoreJobView),
    /// The session stays; the poll failed in a way that is taken to be
    /// transient.
    Skip(AlphaSensorPollError),
    /// The command could not be sent: the session ends and the device goes
    /// back to the queue.
    Requeue,
}

/// The verdict on a session after a poll.
pub open spec fn verdict_of(session: AlphaSensorView, report: PollReport) -> PollVerdictView {
    match poll_result(report.exchange) {
        Ok(reading) => PollVerdictView::Store(
            StoreJobView {
                sensor: domain_sensor(session.peripheral),
                timestamp: report.at,
                readings: readings_of(reading),
            },
        ),
        Err(AlphaSensorPollError::SendFailed) => PollVerdictView::Requeue,
        Err(error) => PollVerdictView::Skip(error),
    }
}

/// Whether the poll behind a report ended the session.
pub open spec fn ends_session(report: PollReport) -> bool {
    report.exchange is SendFailed
}

/// How the inspection of a device ends, given the endpoints found on it
/// (`None` if connecting or listing failed) and the exchange that followed
/// the hello command (`None` if none was sent): the device is admitted
/// exactly if it has the service endpoint and acknowledged the hello
/// command.
pub open spec fn inspection_verdict(
    discovered: Option<Vec<Characteristic>>,
    handshake: Option<Exchange>,
) -> InspectVerdict {
    match (discovered, handshake) {
        (Some(list), Some(exchange)) => if service_position(list@) is Some && is_hello(exchange) {
            InspectVerdict::Admitted
        } else {
            InspectVerdict::Disconnect
        },
        _ => InspectVerdict::Disconnect,
    }
}

/// The endpoint of the session that an inspection opens.
pub open spec fn inspected_endpoint(discovered: Option<Vec<Characteristic>>) -> Characteristic {
    let list = discovered->Some_0@;
    list[service_position(list)->Some_0]
}

/// The state of the registry.
pub struct RegistryView {
    /// Devices waiting to be inspected; the last one is inspected first.
    pub queue: Seq<PeripheralView>,
    /// Sensors with a live session, in the order in which they were
    /// admitted.
    pub sessions: Seq<AlphaSensorView>,
    /// Textual addresses of the sensors that count as online.
    pub online: Set<Seq<char>>,
}

impl RegistryView {
    /// Whether `address` is queued or has a session.
    pub open spec fn knows(self, address: Seq<u8>) -> bool {
        queue_addresses(self.queue).contains(address) || session_addresses(
            self.sessions,
        ).contains(address)
    }

    /// Every known address: those queued, then those with a session.
    pub open spec fn known(self) -> Seq<Seq<u8>> {
        queue_addresses(self.queue) + session_addresses(self.sessions)
    }

    /// After a device was discovered: it is at the end of the queue.
    pub open spec fn discovered(self, peripheral: PeripheralView) -> RegistryView {
        RegistryView { queue: self.queue.push(peripheral), ..self }
    }

    /// After a device was lost: nothing with its address is queued or
    /// active, and, if it had a session, its sensor is not online.
    pub open spec fn disconnected(self, address: Seq<u8>) -> RegistryView {
        RegistryView {
            queue: self.queue.filter(queued_elsewhere(address)),
            sessions: self.sessions.filter(session_elsewhere(address)),
            online: if self.sessions.filter(session_at(address)).len() > 0 {
                self.online.remove(address_text(address))
            } else {
                self.online
            },
        }
    }

    /// The sensors that leave the active set when a device is lost, in the
    /// order of their sessions. Only the first can have been online: the
    /// others share its address.
    pub open spec fn departures(self, address: Seq<u8>) -> Seq<DepartureView> {
        let lost = self.sessions.filter(session_at(address));
        Seq::new(
            lost.len(),
            |i: int|
                DepartureView {
                    sensor: domain_sensor(lost[i].peripheral),
                    was_online: i == 0 && self.online.contains(address_text(address)),
                },
        )
    }

    /// After the next device was taken off the queue.
    pub open spec fn popped(self) -> RegistryView {
        if self.queue.len() > 0 {
            RegistryView { queue: self.queue.drop_last(), ..self }
        } else {
            self
        }
    }

    /// What is to be done with the device that is taken off the queue next.
    pub open spec fn next_order(self) -> InspectionOrderView {
        if self.queue.len() == 0 {
            InspectionOrderView::Idle
        } else {
            InspectionOrderView::Probe(self.queue.last())
        }
    }

    /// After a session was admitted: it is the last active one and its
    /// sensor is online.
    pub open spec fn admitted(self, session: AlphaSensorView) -> RegistryView {
        RegistryView {
            sessions: self.sessions.push(session),
            online: self.online.insert(address_text(session.peripheral.address)),
            ..self
        }
    }

    /// After an inspection ended: the session is admitted if the verdict
    /// says so, and nothing changes otherwise.
    pub open spec fn inspected(
        self,
        peripheral: PeripheralView,
        discovered: Option<Vec<Characteristic>>,
        handshake: Option<Exchange>,
    ) -> RegistryView {
        if inspection_verdict(discovered, handshake) == InspectVerdict::Admitted {
            self.admitted(
                AlphaSensorView { peripheral, characteristic: inspected_endpoint(discovered) },
            )
        } else {
            self
        }
    }

    /// After polling one session: it stays unless the command could not be
    /// sent, in which case it leaves the active set, its sensor goes offline
    /// and its device goes to the end of the queue.
    pub open spec fn after_poll(self, session: AlphaSensorView, report: PollReport)
        -> RegistryView {
        if ends_session(report) {
            RegistryView {
                queue: self.queue.push(session.peripheral),
                sessions: self.sessions,
                online: self.online.remove(address_text(session.peripheral.address)),
            }
        } else {
            RegistryView { sessions: self.sessions.push(session), ..self }
        }
    }

    /// The registry in the middle of a sweep: the first `count` sessions
    /// have been polled with the first `count` reports, and the sessions that
    /// stay have been collected in order; those not yet polled are set aside.
    pub open spec fn sweep_prefix(self, reports: Seq<PollReport>, count: nat) -> RegistryView
        decreases count,
    {
        if count == 0 {
            RegistryView { sessions: Seq::empty(), ..self }
        } else {
            self.sweep_prefix(reports, (count - 1) as nat).after_poll(
                self.sessions[count - 1],
                reports[count - 1],
            )
        }
    }

    /// The number of sessions that a sweep with `reports` polls: one for
    /// each report, as far as there are sessions.
    pub open spec fn polled(self, reports: Seq<PollReport>) -> nat {
        if reports.len() <= self.sessions.len() {
            reports.len()
        } else {
            self.sessions.len()
        }
    }

    /// After a sweep: session `i` was polled with report `i`, and sessions
    /// without a report stay as they are.
    pub open spec fn swept(self, reports: Seq<PollReport>) -> RegistryView {
        let count = self.polled(reports);
        let polled = self.sweep_prefix(reports, count);
        RegistryView { sessions: polled.sessions + self.sessions.skip(count as int), ..polled }
    }

    /// The storage jobs that the first `count` polls of a sweep give rise
    /// to, in the order of the sessions.
    pub open spec fn sweep_jobs(self, reports: Seq<PollReport>, count: nat) -> Seq<StoreJobView>
        decreases count,
    {
        if count == 0 {
            Seq::empty()
        } else {
            let earlier = self.sweep_jobs(reports, (count - 1) as nat);
            match verdict_of(self.sessions[count - 1], reports[count - 1]) {
                PollVerdictView::Store(job) => earlier.push(job),
                _ => earlier,
            }
        }
    }

    /// The sessions that the first `count` polls of a sweep end, in order.
    pub open spec fn sweep_dropped(self, reports: Seq<PollReport>, count: nat) -> Seq<
        AlphaSensorView,
    >
        decreases count,
    {
        if count == 0 {
            Seq::empty()
        } else {
            let earlier = self.sweep_dropped(reports, (count - 1) as nat);
            if ends_session(reports[count - 1]) {
                earlier.push(self.sessions[count - 1])
            } else {
                earlier
            }
        }
    }
}

} // verus!
