//! The set of sensors that currently count as online.

use vstd::prelude::*;
use crate::sensor::{Sensor, SensorStatus};

verus! {

/// The status that goes with membership in the online set.
pub open spec fn status_of(online: bool) -> SensorStatus {
    if online {
        SensorStatus::Online
    } else {
        SensorStatus::Offline
    }
}

/// A record of which sensors are online. A sensor is identified by its
/// address; its name plays no part.
pub trait SensorsState {
    /// The addresses of the sensors that are online.
    spec fn online(&self) -> Set<Seq<char>>;

    /// Tells whether `sensor` is online.
    fn get_status(&self, sensor: &Sensor) -> (status: SensorStatus)
        ensures
            status == status_of(self.online().contains(sensor.address@)),
    ;

    /// Marks `sensor` as online.
    fn add(&mut self, sensor: Sensor)
        ensures
            final(self).online() == old(self).online().insert(sensor.address@),
    ;

    /// Marks `sensor` as no longer online. Fails, changing nothing, if it was
    /// not online.
    fn remove(&mut self, sensor: &Sensor) -> (removed: Result<(), ()>)
        ensures
            final(self).online() == old(self).online().remove(sensor.address@),
            removed is Ok <==> old(self).online().contains(sensor.address@),
    ;
}

/// The online set kept in memory, in the order in which sensors came online.
pub struct AppState {
    sensors: Vec<Sensor>,
}

/// The addresses that occur in a list of sensors.
pub open spec fn addresses_in(sensors: Seq<Sensor>) -> Set<Seq<char>> {
    Set::new(
        |address: Seq<char>|
            exists|i: int| 0 <= i < sensors.len() && #[trigger] sensors[i].address@ == address,
    )
}

impl AppState {
    /// The sensors that are online, oldest first.
    pub closed spec fn listed(&self) -> Seq<Sensor> {
        self.sensors@
    }

    /// An online set with nobody in it.
    pub fn new() -> (state: Self)
        ensures
            state.online() == Set::<Seq<char>>::empty(),
            state.listed() == Seq::<Sensor>::empty(),
    {
        let state = AppState { sensors: Vec::new() };
        assert(state.online() =~= Set::<Seq<char>>::empty());
        state
    }

    /// The first position at which `address` is listed, if it is listed.
    fn position(&self, address: &String) -> (at: Option<usize>)
        ensures
            match at {
                Some(i) => i < self.sensors@.len() && self.sensors@[i as int].address@
                    == address@,
                None => forall|k: int|
                    0 <= k < self.sensors@.len() ==> self.sensors@[k].address@ != address@,
            },
    {
        let mut i: usize = 0;
        while i < self.sensors.len()
            invariant
                i <= self.sensors@.len(),
                forall|k: int| 0 <= k < i ==> self.sensors@[k].address@ != address@,
            decreases self.sensors@.len() - i,
        {
            if self.sensors[i].address == *address {
                return Some(i);
            }
            i = i + 1;
        }
        None
    }
}

impl SensorsState for AppState {
    closed spec fn online(&self) -> Set<Seq<char>> {
        addresses_in(self.sensors@)
    }

    fn get_status(&self, sensor: &Sensor) -> (status: SensorStatus) {
        match self.position(&sensor.address) {
            Some(_) => SensorStatus::Online,
            None => SensorStatus::Offline,
        }
    }

    /// Lists `sensor` unless its address is listed already.
    fn add(&mut self, sensor: Sensor)
        ensures
            final(self).listed() == if old(self).online().contains(sensor.address@) {
                old(self).listed()
            } else {
                old(self).listed().push(sensor)
            },
    {
        let ghost before = self.sensors@;
        if self.position(&sensor.address).is_none() {
            self.sensors.push(sensor);
            assert forall|a: Seq<char>| addresses_in(self.sensors@).contains(a) <==> addresses_in(
                before,
            ).insert(sensor.address@).contains(a) by {
                if addresses_in(before).contains(a) {
                    let i = choose|i: int|
                        0 <= i < before.len() && #[trigger] before[i].address@ == a;
                    assert(self.sensors@[i].address@ == a);
                }
                if a == sensor.address@ {
                    assert(self.sensors@[before.len() as int].address@ == a);
                }
            }
        }
        assert(addresses_in(self.sensors@) =~= addresses_in(before).insert(sensor.address@));
    }

    /// Takes every entry with the address of `sensor` off the list.
    fn remove(&mut self, sensor: &Sensor) -> (removed: Result<(), ()>)
        ensures
            final(self).listed() == old(self).listed().filter(listed_elsewhere(sensor.address@)),
    {
        let ghost before = self.sensors@;
        let ghost stays = listed_elsewhere(sensor.address@);
        let was_listed = self.position(&sensor.address).is_some();
        let mut i: usize = 0;
        let mut done: Ghost<int> = Ghost(0);
        while i < self.sensors.len()
            invariant
                0 <= done@ <= before.len(),
                i <= self.sensors@.len(),
                self.sensors@.len() - i == before.len() - done@,
                self.sensors@.take(i as int) == before.take(done@).filter(stays),
                self.sensors@.skip(i as int) == before.skip(done@),
                stays == listed_elsewhere(sensor.address@),
            decreases self.sensors@.len() - i,
        {
            let ghost current = self.sensors@;
            proof {
                assert(current[i as int] == current.skip(i as int)[0]);
                assert(before[done@] == before.skip(done@)[0]);
                assert(before.take(done@ + 1) == before.take(done@).push(before[done@]));
                before.take(done@).lemma_filter_push(before[done@], stays);
            }
            if self.sensors[i].address == sensor.address {
                self.sensors.remove(i);
                assert(self.sensors@.take(i as int) == current.take(i as int));
                assert(self.sensors@.skip(i as int) == current.skip(i as int).skip(1));
                assert(before.skip(done@ + 1) == before.skip(done@).skip(1));
            } else {
                assert(current.take(i as int + 1) == current.take(i as int).push(
                    current[i as int],
                ));
                assert(current.skip(i as int + 1) == current.skip(i as int).skip(1));
                assert(before.skip(done@ + 1) == before.skip(done@).skip(1));
                i = i + 1;
            }
            proof {
                done@ = done@ + 1;
            }
        }
        proof {
            assert(before.take(done@) == before);
            assert(self.sensors@.take(i as int) == self.sensors@);
            lemma_addresses_without(before, sensor.address@);
        }
        if was_listed {
            Ok(())
        } else {
            Err(())
        }
    }
}

/// The test that a listed sensor has another address than `address`.
pub open spec fn listed_elsewhere(address: Seq<char>) -> spec_fn(Sensor) -> bool {
    |listed: Sensor| listed.address@ != address
}

/// Taking every sensor with a given address off a list takes that address,
/// and no other, out of the set of listed addresses.
pub proof fn lemma_addresses_without(sensors: Seq<Sensor>, address: Seq<char>)
    ensures
        addresses_in(sensors.filter(listed_elsewhere(address))) == addresses_in(sensors).remove(
            address,
        ),
{
    let stays = listed_elsewhere(address);
    let rest = sensors.filter(stays);
    assert forall|a: Seq<char>| addresses_in(rest).contains(a) <==> addresses_in(sensors).remove(
        address,
    ).contains(a) by {
        if addresses_in(rest).contains(a) {
            let i = choose|i: int| 0 <= i < rest.len() && #[trigger] rest[i].address@ == a;
            sensors.lemma_filter_pred(stays, i);
            assert(rest.contains(rest[i]));
            sensors.lemma_filter_contains_rev(stays, rest[i]);
            let j = choose|j: int| 0 <= j < sensors.len() && sensors[j] == rest[i];
            assert(sensors[j].address@ == a);
        }
        if addresses_in(sensors).remove(address).contains(a) {
            let j = choose|j: int| 0 <= j < sensors.len() && #[trigger] sensors[j].address@ == a;
            assert(stays(sensors[j]));
            sensors.lemma_filter_contains(stays, j);
            let i = choose|i: int| 0 <= i < rest.len() && rest[i] == sensors[j];
            assert(rest[i].address@ == a);
        }
    }
    assert(addresses_in(rest) =~= addresses_in(sensors).remove(address));
}

} // verus!
