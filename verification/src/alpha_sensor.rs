//! The wire protocol of the Alpha sensor family and the session that speaks
//! it.
//!
//! A session sends one command byte to a sensor and waits a bounded time for
//! one notification in reply. Sending and waiting are the embedding program's
//! work; what it observed comes back as an [`Exchange`], and the functions
//! here decide what that observation means.

use vstd::prelude::*;
use crate::peripheral::{Characteristic, PeripheralRef, PeripheralView, Uuid};

verus! {

/// Short identifier of the endpoint through which an Alpha sensor talks.
pub const SERVICE_CHARACTERISTIC: u16 = 0xFFE1;

/// Command byte that opens a session.
pub const HELLO_COMMAND: u8 = 0x10;

/// Command byte that asks for a measurement.
pub const POLL_COMMAND: u8 = 0x66;

/// Longest time, in seconds, to wait for the reply to a command.
pub const REPLY_TIMEOUT_SECS: u64 = 5;

/// The reply with which a sensor acknowledges [`HELLO_COMMAND`].
pub open spec fn hello_reply() -> Seq<u8> {
    seq![0x00u8, 0xF0u8, 0x14u8, 0x4Du8]
}

/// Why a poll produced no reading.
#[derive(Clone, Copy, Debug, PartialEq, Eq, Structural)]
pub enum AlphaSensorPollError {
    /// The reply does not have the length of a measurement.
    UnexpectedResponse,
    /// The sensor answered with a non-zero status byte.
    SensorError,
    /// No reply arrived in time.
    Timeout,
    /// The command could not be sent.
    SendFailed,
}

/// One measurement as the sensor reports it.
#[derive(Clone, Copy, Debug, PartialEq, Eq, Structural)]
pub struct AlphaSensorReading {
    pub temperature: i8,
    pub humidity: u8,
}

/// What came of sending one command and waiting for its reply.
#[derive(Debug)]
pub enum Exchange {
    /// The command was not accepted for sending.
    SendFailed,
    /// The command was sent and nothing arrived within
    /// [`REPLY_TIMEOUT_SECS`].
    Timeout,
    /// The command was sent and this payload arrived.
    Reply(Vec<u8>),
}

/// The value of a byte read as a two's-complement signed number.
pub open spec fn signed_byte(byte: u8) -> int {
    if byte < 128 {
        byte as int
    } else {
        byte - 256
    }
}

/// What a poll yields for each possible exchange: a failed send and a
/// timeout are reported as such; a reply must be four bytes long and start
/// with a zero status byte, and then carries the temperature as a signed byte
/// and the humidity as an unsigned one. The fourth byte is not interpreted.
pub open spec fn poll_result(exchange: Exchange) -> Result<
    AlphaSensorReading,
    AlphaSensorPollError,
> {
    match exchange {
        Exchange::SendFailed => Err(AlphaSensorPollError::SendFailed),
        Exchange::Timeout => Err(AlphaSensorPollError::Timeout),
        Exchange::Reply(data) => if data@.len() != 4 {
            Err(AlphaSensorPollError::UnexpectedResponse)
        } else if data@[0] != 0 {
            Err(AlphaSensorPollError::SensorError)
        } else {
            Ok(
                AlphaSensorReading {
                    temperature: signed_byte(data@[1]) as i8,
                    humidity: data@[2],
                },
            )
        },
    }
}

/// Whether an exchange is the acknowledgement of the hello command.
pub open spec fn is_hello(exchange: Exchange) -> bool {
    exchange matches Exchange::Reply(data) && data@ == hello_reply()
}

/// The first endpoint in `characteristics` that carries the short identifier
/// [`SERVICE_CHARACTERISTIC`], if there is one.
pub open spec fn service_position(characteristics: Seq<Characteristic>) -> Option<int>
    decreases characteristics.len(),
{
    if characteristics.len() == 0 {
        None
    } else if characteristics[0].uuid == Uuid::B16(SERVICE_CHARACTERISTIC) {
        Some(0)
    } else {
        match service_position(characteristics.skip(1)) {
            Some(at) => Some(at + 1),
            None => None,
        }
    }
}

/// A live session with one sensor: the device and the endpoint through which
/// it is polled. A session comes into being only through
/// [`AlphaSensor::try_new`], that is, after a successful handshake.
#[derive(Debug)]
pub struct AlphaSensor {
    peripheral: PeripheralRef,
    characteristic: Characteristic,
}

/// Mathematical content of an [`AlphaSensor`].
pub struct AlphaSensorView {
    pub peripheral: PeripheralView,
    pub characteristic: Characteristic,
}

impl View for AlphaSensor {
    type V = AlphaSensorView;

    open spec fn view(&self) -> AlphaSensorView {
        AlphaSensorView { peripheral: self.device(), characteristic: self.endpoint() }
    }
}

impl Clone for AlphaSensor {
    fn clone(&self) -> (copy: Self)
        ensures
            copy == *self,
            copy@ == self@,
    {
        AlphaSensor { peripheral: self.peripheral.clone(), characteristic: self.characteristic }
    }
}

impl AlphaSensor {
    /// The device at the other end of the session.
    pub closed spec fn device(&self) -> PeripheralView {
        self.peripheral@
    }

    /// The endpoint through which the session talks.
    pub closed spec fn endpoint(&self) -> Characteristic {
        self.characteristic
    }

    /// The device at the other end of the session.
    pub fn peripheral(&self) -> (peripheral: &PeripheralRef)
        ensures
            peripheral@ == self.device(),
    {
        &self.peripheral
    }

    /// The endpoint through which the session talks.
    pub fn characteristic(&self) -> (characteristic: Characteristic)
        ensures
            characteristic == self.endpoint(),
    {
        self.characteristic
    }

    /// Decides how the inspection of a device goes on once the connection
    /// attempt and the listing of its endpoints are over.
    ///
    /// `discovered` is the list of endpoints, or `None` if connecting or
    /// listing failed. The result is the endpoint to try the handshake on:
    /// the first one with the identifier [`SERVICE_CHARACTERISTIC`]. Where
    /// none comes back the device is not a sensor of this family, and the
    /// caller closes the connection.
    pub fn inspect(discovered: &Option<Vec<Characteristic>>) -> (found: Option<Characteristic>)
        ensures
            discovered is None ==> found is None,
            discovered matches Some(list) ==> match service_position(list@) {
                Some(at) => 0 <= at < list@.len() && found == Some(list@[at]),
                None => found is None,
            },
    {
        match discovered {
            None => None,
            Some(list) => find_service(list),
        }
    }

    /// Tells whether a notification belongs to this session's endpoint.
    /// Notifications from any other endpoint are not for the session and are
    /// dropped by the caller.
    pub fn accepts_notification(characteristic: &Characteristic, source: &Uuid) -> (accepted: bool)
        ensures
            accepted == (*source == characteristic.uuid),
    {
        *source == characteristic.uuid
    }

    /// Tells whether the exchange that followed [`HELLO_COMMAND`] is the
    /// expected acknowledgement: a reply of exactly the four bytes of
    /// [`hello_reply`].
    pub fn check_hello(exchange: &Exchange) -> (ok: bool)
        ensures
            ok == is_hello(*exchange),
    {
        match exchange {
            Exchange::Reply(data) => {
                let ok = data.len() == 4 && data[0] == 0x00 && data[1] == 0xF0 && data[2] == 0x14
                    && data[3] == 0x4D;
                proof {
                    if ok {
                        assert(data@ =~= hello_reply());
                    }
                }
                ok
            },
            _ => false,
        }
    }

    /// Opens a session if the handshake succeeded: `exchange` is what came
    /// of sending [`HELLO_COMMAND`] to `characteristic`. Without the exact
    /// acknowledgement there is no session, and the caller closes the
    /// connection.
    pub fn try_new(peripheral: PeripheralRef, characteristic: Characteristic, exchange: &Exchange)
        -> (session: Option<Self>)
        ensures
            session is Some <==> is_hello(*exchange),
            session matches Some(sensor) ==> sensor.device() == peripheral@
                && sensor.endpoint() == characteristic,
    {
        if Self::check_hello(exchange) {
            Some(AlphaSensor { peripheral, characteristic })
        } else {
            None
        }
    }

    /// Reads the exchange that followed [`POLL_COMMAND`] as a measurement.
    pub fn poll(&self, exchange: &Exchange) -> (result: Result<
        AlphaSensorReading,
        AlphaSensorPollError,
    >)
        ensures
            result == poll_result(*exchange),
    {
        match exchange {
            Exchange::SendFailed => Err(AlphaSensorPollError::SendFailed),
            Exchange::Timeout => Err(AlphaSensorPollError::Timeout),
            Exchange::Reply(data) => {
                if data.len() == 4 {
                    if data[0] == 0x00 {
                        let raw: u8 = data[1];
                        let temperature: i8 = if raw < 128 {
                            raw as i8
                        } else {
                            (raw as i16 - 256) as i8
                        };
                        Ok(AlphaSensorReading { temperature, humidity: data[2] })
                    } else {
                        Err(AlphaSensorPollError::SensorError)
                    }
                } else {
                    Err(AlphaSensorPollError::UnexpectedResponse)
                }
            },
        }
    }
}

/// Finds the first endpoint with the service identifier.
fn find_service(list: &Vec<Characteristic>) -> (found: Option<Characteristic>)
    ensures
        match service_position(list@) {
            Some(at) => 0 <= at < list@.len() && found == Some(list@[at]),
            None => found is None,
        },
{
    let mut i: usize = 0;
    while i < list.len()
        invariant
            i <= list.len(),
            forall|k: int| 0 <= k < i ==> list@[k].uuid != Uuid::B16(SERVICE_CHARACTERISTIC),
        decreases list.len() - i,
    {
        if list[i].uuid == Uuid::B16(SERVICE_CHARACTERISTIC) {
            proof {
                lemma_service_position_first(list@, i as int);
            }
            return Some(list[i]);
        }
        i = i + 1;
    }
    proof {
        lemma_service_position_none(list@);
    }
    None
}

/// If no endpoint before `at` has the service identifier and the one at `at`
/// has it, then `at` is the service position.
proof fn lemma_service_position_first(characteristics: Seq<Characteristic>, at: int)
    requires
        0 <= at < characteristics.len(),
        forall|k: int| 0 <= k < at ==> characteristics[k].uuid != Uuid::B16(SERVICE_CHARACTERISTIC),
        characteristics[at].uuid == Uuid::B16(SERVICE_CHARACTERISTIC),
    ensures
        service_position(characteristics) == Some(at),
    decreases at,
{
    if at > 0 {
        let rest = characteristics.skip(1);
        assert forall|k: int| 0 <= k < at - 1 implies rest[k].uuid != Uuid::B16(
            SERVICE_CHARACTERISTIC,
        ) by {
            assert(rest[k] == characteristics[k + 1]);
        }
        lemma_service_position_first(rest, at - 1);
    }
}

/// If no endpoint has the service identifier, there is no service position.
proof fn lemma_service_position_none(characteristics: Seq<Characteristic>)
    requires
        forall|k: int|
            0 <= k < characteristics.len() ==> characteristics[k].uuid != Uuid::B16(
                SERVICE_CHARACTERISTIC,
            ),
    ensures
        service_position(characteristics) is None,
    decreases characteristics.len(),
{
    if characteristics.len() > 0 {
        let rest = characteristics.skip(1);
        assert forall|k: int| 0 <= k < rest.len() implies rest[k].uuid != Uuid::B16(
            SERVICE_CHARACTERISTIC,
        ) by {
            assert(rest[k] == characteristics[k + 1]);
        }
        lemma_service_position_none(rest);
    }
}

} // verus!
