//! The timing of the gateway's main loop: when to inspect the next
//! discovered device and when to poll the active sensors.
//!
//! The loop wakes about once a second, handles at most one discovery or loss
//! event, and then asks the scheduler what is due. Time is a reading of a
//! monotonic clock in nanoseconds.

use vstd::prelude::*;
use crate::master::{BleMaster, Departure, departure_views};
use crate::peripheral::PeripheralRef;
use crate::registry::RegistryView;
use crate::state::SensorsState;

verus! {

/// Nanoseconds in a second.
pub const NANOS_PER_SEC: u64 = 1_000_000_000;

/// Seconds between two inspections unless configured otherwise.
pub const DEFAULT_INSPECT_INTERVAL_SECS: u64 = 1;

/// Seconds between two poll sweeps unless configured otherwise.
pub const DEFAULT_POLL_INTERVAL_SECS: u64 = 300;

/// Longest time, in seconds, that one iteration of the loop waits for an
/// event.
pub const EVENT_WAIT_SECS: u64 = 1;

/// Whether at least `interval_secs` whole seconds lie between `since` and
/// `now`. A clock that ran backwards counts as no time having passed.
pub open spec fn due(since: u64, now: u64, interval_secs: u64) -> bool {
    now >= since && (now - since) / (NANOS_PER_SEC as int) >= interval_secs
}

/// What is due in one iteration of the loop. Where both are due, the
/// inspection comes first.
#[derive(Clone, Copy, Debug, PartialEq, Eq, Structural)]
pub struct Tick {
    /// Take the next device off the queue and inspect it.
    pub inspect: bool,
    /// Poll every active sensor.
    pub poll: bool,
}

/// One thing to do in an iteration of the loop.
#[derive(Clone, Copy, Debug, PartialEq, Eq, Structural)]
pub enum Step {
    /// Take the next device off the queue and inspect it.
    Inspect,
    /// Poll every active sensor.
    Poll,
}

/// The steps of an iteration in the order in which they are taken: the
/// inspection, if it is due, and then the sweep, if it is due.
pub open spec fn steps_of(tick: Tick) -> Seq<Step> {
    (if tick.inspect {
        seq![Step::Inspect]
    } else {
        Seq::empty()
    }) + (if tick.poll {
        seq![Step::Poll]
    } else {
        Seq::empty()
    })
}

impl Tick {
    /// Lists what is due in the order in which it is to be done.
    pub fn steps(&self) -> (steps: Vec<Step>)
        ensures
            steps@ == steps_of(*self),
    {
        let mut steps: Vec<Step> = Vec::new();
        if self.inspect {
            steps.push(Step::Inspect);
        }
        if self.poll {
            steps.push(Step::Poll);
        }
        assert(steps@ =~= steps_of(*self));
        steps
    }
}

/// The two interval timers of the loop.
#[derive(Clone, Copy, Debug, PartialEq, Eq, Structural)]
pub struct Scheduler {
    pub inspect_interval_secs: u64,
    pub poll_interval_secs: u64,
    /// When the last inspection ended.
    pub prev_inspect: u64,
    /// When the last poll sweep began.
    pub prev_poll: u64,
}

impl Scheduler {
    /// Timers with the given intervals, both started at `now`.
    pub fn new(inspect_interval_secs: u64, poll_interval_secs: u64, now: u64) -> (scheduler: Self)
        ensures
            scheduler == (Scheduler {
                inspect_interval_secs,
                poll_interval_secs,
                prev_inspect: now,
                prev_poll: now,
            }),
    {
        Scheduler { inspect_interval_secs, poll_interval_secs, prev_inspect: now, prev_poll: now }
    }

    /// Timers with the default intervals: an inspection every second, a
    /// sweep every five minutes.
    pub fn with_defaults(now: u64) -> (scheduler: Self)
        ensures
            scheduler == (Scheduler {
                inspect_interval_secs: DEFAULT_INSPECT_INTERVAL_SECS,
                poll_interval_secs: DEFAULT_POLL_INTERVAL_SECS,
                prev_inspect: now,
                prev_poll: now,
            }),
    {
        Self::new(DEFAULT_INSPECT_INTERVAL_SECS, DEFAULT_POLL_INTERVAL_SECS, now)
    }

    /// Says what is due at `now`. An inspection is due when the inspection
    /// interval has passed since the last inspection ended, a sweep when the
    /// poll interval has passed since the last sweep began. The poll timer
    /// restarts here when a sweep is due; the inspection timer restarts
    /// when the caller reports the end of the inspection.
    pub fn tick(&mut self, now: u64) -> (tick: Tick)
        ensures
            tick.inspect == due(old(self).prev_inspect, now, old(self).inspect_interval_secs),
            tick.poll == due(old(self).prev_poll, now, old(self).poll_interval_secs),
            *final(self) == (Scheduler {
                prev_poll: if tick.poll {
                    now
                } else {
                    old(self).prev_poll
                },
                ..*old(self)
            }),
    {
        let inspect = Self::elapsed(self.prev_inspect, now, self.inspect_interval_secs);
        let poll = Self::elapsed(self.prev_poll, now, self.poll_interval_secs);
        if poll {
            self.prev_poll = now;
        }
        Tick { inspect, poll }
    }

    /// Restarts the inspection timer: the inspection that was due has ended
    /// at `now`.
    pub fn inspection_done(&mut self, now: u64)
        ensures
            *final(self) == (Scheduler { prev_inspect: now, ..*old(self) }),
    {
        self.prev_inspect = now;
    }

    /// Tells whether an interval has passed.
    pub fn elapsed(since: u64, now: u64, interval_secs: u64) -> (passed: bool)
        ensures
            passed == due(since, now, interval_secs),
    {
        now >= since && (now - since) / NANOS_PER_SEC >= interval_secs
    }
}

/// An event from the radio, as far as the registry cares.
#[derive(Debug)]
pub enum LifecycleEvent {
    /// A device was discovered. The device is missing where the radio could
    /// not hand it out.
    Discovered(Option<PeripheralRef>),
    /// The device with this address was lost.
    Disconnected([u8; 6]),
    /// Any other event.
    Other,
}

/// What handling an event leaves for the caller to do.
#[derive(Debug)]
pub struct EventOutcome {
    /// Start scanning again: a loss stops the scan.
    pub rescan: bool,
    /// The sensors whose sessions ended.
    pub lost: Vec<Departure>,
}

/// The registry after a radio event.
pub open spec fn after_event(registry: RegistryView, event: LifecycleEvent) -> RegistryView {
    match event {
        LifecycleEvent::Discovered(Some(peripheral)) => registry.discovered(peripheral@),
        LifecycleEvent::Disconnected(address) => registry.disconnected(address@),
        _ => registry,
    }
}

/// Hands one radio event to the registry: a discovered device is queued, a
/// lost one is forgotten and the scan is started again, anything else is
/// passed over.
pub fn handle_event<S: SensorsState>(master: &mut BleMaster<S>, event: LifecycleEvent) -> (outcome:
    EventOutcome)
    ensures
        final(master)@ == after_event(old(master)@, event),
        outcome.rescan == (event is Disconnected),
        departure_views(outcome.lost@) == match event {
            LifecycleEvent::Disconnected(address) => old(master)@.departures(address@),
            _ => Seq::empty(),
        },
{
    match event {
        LifecycleEvent::Discovered(Some(peripheral)) => {
            master.on_discovered(peripheral);
            let lost: Vec<Departure> = Vec::new();
            assert(departure_views(lost@) =~= Seq::empty());
            EventOutcome { rescan: false, lost }
        },
        LifecycleEvent::Disconnected(address) => {
            let lost = master.on_disconnect(address);
            EventOutcome { rescan: true, lost }
        },
        _ => {
            let lost: Vec<Departure> = Vec::new();
            assert(departure_views(lost@) =~= Seq::empty());
            EventOutcome { rescan: false, lost }
        },
    }
}

} // verus!
