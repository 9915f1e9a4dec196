//! What stays true of the registry whatever happens to it, and the proofs.
//!
//! A registry is consistent when no address is known twice, neither within
//! the queue, nor within the active set, nor across the two, and when the
//! online set holds exactly the sensors of the active sessions. Every event
//! keeps a consistent registry consistent, provided that a device enters the
//! registry only under an address that is not known at that moment.

use vstd::prelude::*;
use crate::alpha_sensor::{AlphaSensorView, Exchange};
use crate::peripheral::{address_text, lemma_address_text_injective, Characteristic, PeripheralView};
use crate::registry::{
    ends_session,
    inspection_verdict,
    queue_addresses,
    queued_elsewhere,
    session_addresses,
    session_at,
    session_elsewhere,
    session_texts,
    InspectVerdict,
    PollReport,
    RegistryView,
};

verus! {

impl RegistryView {
    /// Every known address has the length of a device address.
    pub open spec fn sized(self) -> bool {
        &&& forall|i: int| 0 <= i < self.queue.len() ==> (#[trigger] self.queue[i]).address.len() == 6
        &&& forall|i: int|
            0 <= i < self.sessions.len() ==> (#[trigger] self.sessions[i]).peripheral.address.len()
                == 6
    }

    /// No address is queued and active at the same time.
    pub open spec fn exclusive(self) -> bool {
        forall|i: int, j: int|
            0 <= i < self.queue.len() && 0 <= j < self.sessions.len() ==> (
            #[trigger] self.queue[i]).address != (#[trigger] self.sessions[j]).peripheral.address
    }

    /// No address is known twice.
    pub open spec fn distinct(self) -> bool {
        &&& self.exclusive()
        &&& forall|i: int, j: int|
            0 <= i < j < self.queue.len() ==> (#[trigger] self.queue[i]).address != (
            #[trigger] self.queue[j]).address
        &&& forall|i: int, j: int|
            0 <= i < j < self.sessions.len() ==> (#[trigger] self.sessions[i]).peripheral.address
                != (#[trigger] self.sessions[j]).peripheral.address
    }

    /// The online set holds exactly the sensors of the active sessions.
    pub open spec fn mirrored(self) -> bool {
        self.online == session_texts(self.sessions)
    }

    /// The registry is consistent.
    pub open spec fn consistent(self) -> bool {
        self.sized() && self.distinct() && self.mirrored()
    }

    /// Whether a device may enter the registry under `address`: the address
    /// is well formed and not known.
    pub open spec fn admits(self, address: Seq<u8>) -> bool {
        address.len() == 6 && !self.knows(address)
    }

    /// The registry after the session at `position` ended for want of a
    /// working link: its device is queued again and its sensor is offline.
    pub open spec fn requeued_at(self, position: int) -> RegistryView {
        RegistryView {
            queue: self.queue.push(self.sessions[position].peripheral),
            sessions: self.sessions.remove(position),
            online: self.online.remove(address_text(self.sessions[position].peripheral.address)),
        }
    }
}

/// An address that is not known differs from every queued and every active
/// address.
pub proof fn lemma_unknown_differs(registry: RegistryView, address: Seq<u8>)
    requires
        !registry.knows(address),
    ensures
        forall|i: int|
            0 <= i < registry.queue.len() ==> (#[trigger] registry.queue[i]).address != address,
        forall|i: int|
            0 <= i < registry.sessions.len() ==> (
            #[trigger] registry.sessions[i]).peripheral.address != address,
{
    assert forall|i: int| 0 <= i < registry.queue.len() implies (
    #[trigger] registry.queue[i]).address != address by {
        assert(queue_addresses(registry.queue)[i] == registry.queue[i].address);
    }
    assert forall|i: int| 0 <= i < registry.sessions.len() implies (
    #[trigger] registry.sessions[i]).peripheral.address != address by {
        assert(session_addresses(registry.sessions)[i] == registry.sessions[i].peripheral.address);
    }
}

/// A newly discovered device under an address that is not known leaves the
/// registry consistent.
pub proof fn lemma_discovered_consistent(registry: RegistryView, peripheral: PeripheralView)
    requires
        registry.consistent(),
        registry.admits(peripheral.address),
    ensures
        registry.discovered(peripheral).consistent(),
{
    lemma_unknown_differs(registry, peripheral.address);
}

/// A session admitted under an address that is not known leaves the
/// registry consistent.
pub proof fn lemma_admitted_consistent(registry: RegistryView, session: AlphaSensorView)
    requires
        registry.consistent(),
        registry.admits(session.peripheral.address),
    ensures
        registry.admitted(session).consistent(),
{
    lemma_unknown_differs(registry, session.peripheral.address);
    let after = registry.admitted(session);
    let text = address_text(session.peripheral.address);
    assert forall|t: Seq<char>| after.online.contains(t) <==> session_texts(
        after.sessions,
    ).contains(t) by {
        if registry.online.contains(t) {
            let i = choose|i: int|
                0 <= i < registry.sessions.len() && t == address_text(
                    #[trigger] registry.sessions[i].peripheral.address,
                );
            assert(after.sessions[i] == registry.sessions[i]);
        }
        if t == text {
            assert(after.sessions[registry.sessions.len() as int] == session);
        }
        if session_texts(after.sessions).contains(t) {
            let i = choose|i: int|
                0 <= i < after.sessions.len() && t == address_text(
                    #[trigger] after.sessions[i].peripheral.address,
                );
            if i < registry.sessions.len() {
                assert(after.sessions[i] == registry.sessions[i]);
            }
        }
    }
    assert(after.online =~= session_texts(after.sessions));
}

/// In a consistent registry a sensor is online exactly if a session is held
/// with the device under its address.
pub proof fn lemma_online_iff_session(registry: RegistryView, address: Seq<u8>)
    requires
        registry.consistent(),
        address.len() == 6,
    ensures
        registry.online.contains(address_text(address)) <==> session_addresses(
            registry.sessions,
        ).contains(address),
{
    if registry.online.contains(address_text(address)) {
        let i = choose|i: int|
            0 <= i < registry.sessions.len() && address_text(address) == address_text(
                #[trigger] registry.sessions[i].peripheral.address,
            );
        lemma_address_text_injective(registry.sessions[i].peripheral.address, address);
        assert(session_addresses(registry.sessions)[i] == address);
    }
    if session_addresses(registry.sessions).contains(address) {
        let i = choose|i: int|
            0 <= i < session_addresses(registry.sessions).len() && session_addresses(
                registry.sessions,
            )[i] == address;
        assert(registry.sessions[i].peripheral.address == address);
    }
}

/// Taking the next device off the queue leaves the registry consistent.
pub proof fn lemma_popped_consistent(registry: RegistryView)
    requires
        registry.consistent(),
    ensures
        registry.popped().consistent(),
{
    let after = registry.popped();
    if registry.queue.len() > 0 {
        assert forall|i: int| 0 <= i < after.queue.len() implies #[trigger] after.queue[i]
            == registry.queue[i] by {}
    }
}

/// The end of an inspection leaves the registry consistent, if the device is
/// not known under its address when it is admitted.
pub proof fn lemma_inspected_consistent(
    registry: RegistryView,
    peripheral: PeripheralView,
    discovered: Option<Vec<Characteristic>>,
    handshake: Option<Exchange>,
)
    requires
        registry.consistent(),
        registry.admits(peripheral.address),
    ensures
        registry.inspected(peripheral, discovered, handshake).consistent(),
{
    if inspection_verdict(discovered, handshake) == InspectVerdict::Admitted {
        lemma_admitted_consistent(
            registry,
            AlphaSensorView {
                peripheral,
                characteristic: crate::registry::inspected_endpoint(discovered),
            },
        );
    }
}

/// Filtering a second time by the same test changes nothing.
pub proof fn lemma_filter_twice<A>(list: Seq<A>, test: spec_fn(A) -> bool)
    ensures
        list.filter(test).filter(test) == list.filter(test),
    decreases list.len(),
{
    if list.len() == 0 {
        list.lemma_filter_len(test);
        list.filter(test).lemma_filter_len(test);
        assert(list.filter(test).filter(test) =~= list.filter(test));
    } else {
        let front = list.drop_last();
        let last = list.last();
        assert(list =~= front.push(last));
        lemma_filter_twice(front, test);
        front.lemma_filter_push(last, test);
        if test(last) {
            front.filter(test).lemma_filter_push(last, test);
        }
    }
}

/// Nothing passes two tests that exclude each other.
pub proof fn lemma_filter_excluded<A>(
    list: Seq<A>,
    first: spec_fn(A) -> bool,
    second: spec_fn(A) -> bool,
)
    requires
        forall|item: A| #[trigger] first(item) ==> !second(item),
    ensures
        list.filter(first).filter(second).len() == 0,
{
    let once = list.filter(first);
    let both = once.filter(second);
    if both.len() > 0 {
        let item = both[0];
        once.lemma_filter_pred(second, 0);
        assert(both.contains(item));
        once.lemma_filter_contains_rev(second, item);
        let k = choose|k: int| 0 <= k < once.len() && once[k] == item;
        list.lemma_filter_pred(first, k);
    }
}

/// What passes a test was in the list, and passes the test.
pub proof fn lemma_filter_member<A>(list: Seq<A>, test: spec_fn(A) -> bool, at: int)
    requires
        0 <= at < list.filter(test).len(),
    ensures
        test(list.filter(test)[at]),
        list.contains(list.filter(test)[at]),
{
    let kept = list.filter(test);
    list.lemma_filter_pred(test, at);
    assert(kept.contains(kept[at]));
    list.lemma_filter_contains_rev(test, kept[at]);
}

/// Filtering a queue in which no address occurs twice leaves a queue in
/// which no address occurs twice.
proof fn lemma_filtered_queue_distinct(
    queue: Seq<PeripheralView>,
    test: spec_fn(PeripheralView) -> bool,
)
    requires
        forall|i: int, j: int|
            0 <= i < j < queue.len() ==> (#[trigger] queue[i]).address != (
            #[trigger] queue[j]).address,
    ensures
        forall|i: int, j: int|
            0 <= i < j < queue.filter(test).len() ==> (#[trigger] queue.filter(test)[i]).address
                != (#[trigger] queue.filter(test)[j]).address,
    decreases queue.len(),
{
    if queue.len() == 0 {
        queue.lemma_filter_len(test);
    } else {
        let front = queue.drop_last();
        let last = queue.last();
        assert(queue =~= front.push(last));
        assert forall|i: int, j: int| 0 <= i < j < front.len() implies (
        #[trigger] front[i]).address != (#[trigger] front[j]).address by {
            assert(front[i] == queue[i] && front[j] == queue[j]);
        }
        lemma_filtered_queue_distinct(front, test);
        front.lemma_filter_push(last, test);
        let kept = queue.filter(test);
        let before = front.filter(test);
        assert forall|i: int, j: int| 0 <= i < j < kept.len() implies (#[trigger] kept[i]).address
            != (#[trigger] kept[j]).address by {
            if j < before.len() {
                assert(kept[i] == before[i] && kept[j] == before[j]);
            } else {
                assert(kept[j] == last);
                assert(kept[i] == before[i]);
                lemma_filter_member(front, test, i);
                let k = choose|k: int| 0 <= k < front.len() && front[k] == before[i];
                assert(queue[k] == front[k]);
                assert(queue[queue.len() - 1] == last);
            }
        }
    }
}

/// Filtering sessions among which no address occurs twice leaves sessions
/// among which no address occurs twice.
proof fn lemma_filtered_sessions_distinct(
    sessions: Seq<AlphaSensorView>,
    test: spec_fn(AlphaSensorView) -> bool,
)
    requires
        forall|i: int, j: int|
            0 <= i < j < sessions.len() ==> (#[trigger] sessions[i]).peripheral.address != (
            #[trigger] sessions[j]).peripheral.address,
    ensures
        forall|i: int, j: int|
            0 <= i < j < sessions.filter(test).len() ==> (
            #[trigger] sessions.filter(test)[i]).peripheral.address != (
            #[trigger] sessions.filter(test)[j]).peripheral.address,
    decreases sessions.len(),
{
    if sessions.len() == 0 {
        sessions.lemma_filter_len(test);
    } else {
        let front = sessions.drop_last();
        let last = sessions.last();
        assert(sessions =~= front.push(last));
        assert forall|i: int, j: int| 0 <= i < j < front.len() implies (
        #[trigger] front[i]).peripheral.address != (#[trigger] front[j]).peripheral.address by {
            assert(front[i] == sessions[i] && front[j] == sessions[j]);
        }
        lemma_filtered_sessions_distinct(front, test);
        front.lemma_filter_push(last, test);
        let kept = sessions.filter(test);
        let before = front.filter(test);
        assert forall|i: int, j: int| 0 <= i < j < kept.len() implies (
        #[trigger] kept[i]).peripheral.address != (#[trigger] kept[j]).peripheral.address by {
            if j < before.len() {
                assert(kept[i] == before[i] && kept[j] == before[j]);
            } else {
                assert(kept[j] == last);
                assert(kept[i] == before[i]);
                lemma_filter_member(front, test, i);
                let k = choose|k: int| 0 <= k < front.len() && front[k] == before[i];
                assert(sessions[k] == front[k]);
                assert(sessions[sessions.len() - 1] == last);
            }
        }
    }
}

/// The loss of a device leaves the registry consistent.
pub proof fn lemma_disconnected_consistent(registry: RegistryView, address: Seq<u8>)
    requires
        registry.consistent(),
    ensures
        registry.disconnected(address).consistent(),
{
    let after = registry.disconnected(address);
    let stays = session_elsewhere(address);
    let leaves = session_at(address);
    let waits = queued_elsewhere(address);
    assert forall|i: int| 0 <= i < after.queue.len() implies registry.queue.contains(
        #[trigger] after.queue[i],
    ) by {
        lemma_filter_member(registry.queue, waits, i);
    }
    assert forall|i: int| 0 <= i < after.sessions.len() implies registry.sessions.contains(
        #[trigger] after.sessions[i],
    ) && after.sessions[i].peripheral.address != address by {
        lemma_filter_member(registry.sessions, stays, i);
    }
    lemma_filtered_queue_distinct(registry.queue, waits);
    lemma_filtered_sessions_distinct(registry.sessions, stays);
    assert(after.sized());
    assert(after.exclusive());
    assert(after.distinct());
    let text = address_text(address);
    let lost = registry.sessions.filter(leaves);
    if lost.len() > 0 {
        lemma_filter_member(registry.sessions, leaves, 0);
        assert(address.len() == 6);
    } else {
        assert forall|i: int| 0 <= i < registry.sessions.len() implies (
        #[trigger] registry.sessions[i]).peripheral.address != address by {
            if registry.sessions[i].peripheral.address == address {
                registry.sessions.lemma_filter_contains(leaves, i);
            }
        }
    }
    assert forall|t: Seq<char>| after.online.contains(t) <==> session_texts(
        after.sessions,
    ).contains(t) by {
        if after.online.contains(t) {
            let i = choose|i: int|
                0 <= i < registry.sessions.len() && t == address_text(
                    #[trigger] registry.sessions[i].peripheral.address,
                );
            assert(registry.sessions[i].peripheral.address != address);
            assert(stays(registry.sessions[i]));
            registry.sessions.lemma_filter_contains(stays, i);
            let k = choose|k: int|
                0 <= k < after.sessions.len() && after.sessions[k] == registry.sessions[i];
            assert(t == address_text(after.sessions[k].peripheral.address));
        }
        if session_texts(after.sessions).contains(t) {
            let k = choose|k: int|
                0 <= k < after.sessions.len() && t == address_text(
                    #[trigger] after.sessions[k].peripheral.address,
                );
            assert(registry.sessions.contains(after.sessions[k]));
            let i = choose|i: int|
                0 <= i < registry.sessions.len() && registry.sessions[i] == after.sessions[k];
            assert(t == address_text(registry.sessions[i].peripheral.address));
            if lost.len() > 0 && t == text {
                lemma_address_text_injective(registry.sessions[i].peripheral.address, address);
            }
        }
    }
    assert(after.online =~= session_texts(after.sessions));
}

/// Reporting the same loss twice is the same as reporting it once: the
/// second report changes nothing and finds no session to end.
pub proof fn lemma_disconnect_idempotent(registry: RegistryView, address: Seq<u8>)
    ensures
        registry.disconnected(address).disconnected(address) == registry.disconnected(address),
        registry.disconnected(address).departures(address) == Seq::<
            crate::registry::DepartureView,
        >::empty(),
{
    let once = registry.disconnected(address);
    let twice = once.disconnected(address);
    lemma_filter_twice(registry.queue, queued_elsewhere(address));
    lemma_filter_twice(registry.sessions, session_elsewhere(address));
    assert forall|session: AlphaSensorView| #[trigger]
        session_elsewhere(address)(session) implies !session_at(address)(session) by {}
    lemma_filter_excluded(registry.sessions, session_elsewhere(address), session_at(address));
    assert(once.departures(address) =~= Seq::<crate::registry::DepartureView>::empty());
    assert(twice.online == once.online);
}

/// A session that ends for want of a working link leaves the registry
/// consistent.
pub proof fn lemma_requeued_consistent(registry: RegistryView, position: int)
    requires
        registry.consistent(),
        0 <= position < registry.sessions.len(),
    ensures
        registry.requeued_at(position).consistent(),
{
    let after = registry.requeued_at(position);
    let moved = registry.sessions[position];
    let text = address_text(moved.peripheral.address);
    assert forall|j: int| 0 <= j < after.sessions.len() implies #[trigger] after.sessions[j] == (
    if j < position {
        registry.sessions[j]
    } else {
        registry.sessions[j + 1]
    }) by {}
    assert forall|i: int| 0 <= i < after.queue.len() implies #[trigger] after.queue[i] == (if i
        < registry.queue.len() {
        registry.queue[i]
    } else {
        moved.peripheral
    }) by {}
    assert(after.sized());
    assert(after.exclusive()) by {
        assert forall|i: int, j: int|
            0 <= i < after.queue.len() && 0 <= j < after.sessions.len() implies (
        #[trigger] after.queue[i]).address != (#[trigger] after.sessions[j]).peripheral.address by {
            let source = if j < position {
                j
            } else {
                j + 1
            };
            assert(after.sessions[j] == registry.sessions[source]);
            if i < registry.queue.len() {
                assert(after.queue[i] == registry.queue[i]);
            } else {
                assert(after.queue[i] == moved.peripheral);
            }
        }
    }
    assert(after.distinct()) by {
        assert forall|i: int, j: int| 0 <= i < j < after.queue.len() implies (
        #[trigger] after.queue[i]).address != (#[trigger] after.queue[j]).address by {
            assert(after.queue[i] == registry.queue[i]);
            if j < registry.queue.len() {
                assert(after.queue[j] == registry.queue[j]);
            } else {
                assert(after.queue[j] == moved.peripheral);
            }
        }
        assert forall|i: int, j: int| 0 <= i < j < after.sessions.len() implies (
        #[trigger] after.sessions[i]).peripheral.address != (
        #[trigger] after.sessions[j]).peripheral.address by {
            let from = if i < position {
                i
            } else {
                i + 1
            };
            let to = if j < position {
                j
            } else {
                j + 1
            };
            assert(after.sessions[i] == registry.sessions[from]);
            assert(after.sessions[j] == registry.sessions[to]);
        }
    }
    assert forall|t: Seq<char>| after.online.contains(t) <==> session_texts(
        after.sessions,
    ).contains(t) by {
        if after.online.contains(t) {
            let i = choose|i: int|
                0 <= i < registry.sessions.len() && t == address_text(
                    #[trigger] registry.sessions[i].peripheral.address,
                );
            assert(i != position);
            let k = if i < position {
                i
            } else {
                i - 1
            };
            assert(after.sessions[k] == registry.sessions[i]);
            assert(t == address_text(after.sessions[k].peripheral.address));
        }
        if session_texts(after.sessions).contains(t) {
            let k = choose|k: int|
                0 <= k < after.sessions.len() && t == address_text(
                    #[trigger] after.sessions[k].peripheral.address,
                );
            let i = if k < position {
                k
            } else {
                k + 1
            };
            assert(after.sessions[k] == registry.sessions[i]);
            assert(t == address_text(registry.sessions[i].peripheral.address));
            if t == text {
                lemma_address_text_injective(
                    registry.sessions[i].peripheral.address,
                    moved.peripheral.address,
                );
                if i < position {
                    assert(registry.sessions[i].peripheral.address
                        != registry.sessions[position].peripheral.address);
                } else {
                    assert(registry.sessions[position].peripheral.address
                        != registry.sessions[i].peripheral.address);
                }
            }
        }
    }
    assert(after.online =~= session_texts(after.sessions));
}

impl RegistryView {
    /// The whole registry in the middle of a sweep: the sessions that stayed
    /// so far, followed by those not yet polled.
    pub open spec fn sweep_mid(self, reports: Seq<PollReport>, count: nat) -> RegistryView {
        let polled = self.sweep_prefix(reports, count);
        RegistryView { sessions: polled.sessions + self.sessions.skip(count as int), ..polled }
    }

    /// A device has been handed back for inspection: it is queued, no
    /// session has its address, and its sensor is not online.
    pub open spec fn handed_back(self, peripheral: PeripheralView) -> bool {
        &&& self.queue.contains(peripheral)
        &&& !self.online.contains(address_text(peripheral.address))
        &&& forall|j: int|
            0 <= j < self.sessions.len() ==> (#[trigger] self.sessions[j]).peripheral.address
                != peripheral.address
    }
}

/// One more poll in a sweep either leaves the registry as it is or ends the
/// session that was polled.
proof fn lemma_sweep_step(registry: RegistryView, reports: Seq<PollReport>, count: nat)
    requires
        count < registry.sessions.len(),
        count < reports.len(),
    ensures
        registry.sweep_prefix(reports, count).sessions.len() <= count,
        registry.sweep_mid(reports, count).sessions.len() == registry.sweep_prefix(
            reports,
            count,
        ).sessions.len() + registry.sessions.len() - count,
        registry.sweep_mid(reports, count).sessions[registry.sweep_prefix(
            reports,
            count,
        ).sessions.len() as int] == registry.sessions[count as int],
        registry.sweep_mid(reports, (count + 1) as nat) == if ends_session(reports[count as int]) {
            registry.sweep_mid(reports, count).requeued_at(
                registry.sweep_prefix(reports, count).sessions.len() as int,
            )
        } else {
            registry.sweep_mid(reports, count)
        },
{
    lemma_sweep_kept_len(registry, reports, count);
    let polled = registry.sweep_prefix(reports, count);
    let mid = registry.sweep_mid(reports, count);
    let next = registry.sweep_mid(reports, (count + 1) as nat);
    let kept = polled.sessions.len() as int;
    assert(registry.sweep_prefix(reports, (count + 1) as nat) == polled.after_poll(
        registry.sessions[count as int],
        reports[count as int],
    ));
    assert(mid.sessions[kept] == registry.sessions.skip(count as int)[0]);
    if ends_session(reports[count as int]) {
        assert(next.sessions =~= mid.sessions.remove(kept));
        assert(next == mid.requeued_at(kept));
    } else {
        assert(next.sessions =~= mid.sessions);
    }
}

/// A sweep keeps at most as many sessions as it has polled.
proof fn lemma_sweep_kept_len(registry: RegistryView, reports: Seq<PollReport>, count: nat)
    ensures
        registry.sweep_prefix(reports, count).sessions.len() <= count,
    decreases count,
{
    if count > 0 {
        lemma_sweep_kept_len(registry, reports, (count - 1) as nat);
    }
}

/// A consistent registry is consistent at every point of a sweep.
proof fn lemma_sweep_mid_consistent(registry: RegistryView, reports: Seq<PollReport>, count: nat)
    requires
        registry.consistent(),
        count <= registry.polled(reports),
    ensures
        registry.sweep_mid(reports, count).consistent(),
    decreases count,
{
    if count == 0 {
        assert(registry.sweep_mid(reports, 0).sessions =~= registry.sessions);
        assert(registry.sweep_mid(reports, 0) == registry);
    } else {
        let before = (count - 1) as nat;
        lemma_sweep_mid_consistent(registry, reports, before);
        lemma_sweep_step(registry, reports, before);
        if ends_session(reports[before as int]) {
            lemma_requeued_consistent(
                registry.sweep_mid(reports, before),
                registry.sweep_prefix(reports, before).sessions.len() as int,
            );
        }
    }
}

/// A poll sweep leaves the registry consistent.
pub proof fn lemma_swept_consistent(registry: RegistryView, reports: Seq<PollReport>)
    requires
        registry.consistent(),
    ensures
        registry.swept(reports).consistent(),
{
    lemma_sweep_mid_consistent(registry, reports, registry.polled(reports));
}

/// A device that was handed back stays handed back when another session
/// ends.
proof fn lemma_requeue_keeps_handed_back(
    registry: RegistryView,
    position: int,
    peripheral: PeripheralView,
)
    requires
        registry.handed_back(peripheral),
        0 <= position < registry.sessions.len(),
    ensures
        registry.requeued_at(position).handed_back(peripheral),
{
    let after = registry.requeued_at(position);
    let at = choose|at: int| 0 <= at < registry.queue.len() && registry.queue[at] == peripheral;
    assert(after.queue[at] == peripheral);
    assert forall|j: int| 0 <= j < after.sessions.len() implies (
    #[trigger] after.sessions[j]).peripheral.address != peripheral.address by {
        let source = if j < position {
            j
        } else {
            j + 1
        };
        assert(after.sessions[j] == registry.sessions[source]);
    }
}

/// From the poll that ends a session on, the device of that session counts
/// as handed back at every later point of the sweep.
proof fn lemma_sweep_hands_back(
    registry: RegistryView,
    reports: Seq<PollReport>,
    ended: int,
    count: nat,
)
    requires
        registry.consistent(),
        0 <= ended < count <= registry.polled(reports),
        ends_session(reports[ended]),
    ensures
        registry.sweep_mid(reports, count).handed_back(registry.sessions[ended].peripheral),
    decreases count,
{
    let before = (count - 1) as nat;
    let mid = registry.sweep_mid(reports, before);
    let kept = registry.sweep_prefix(reports, before).sessions.len() as int;
    let peripheral = registry.sessions[ended].peripheral;
    lemma_sweep_step(registry, reports, before);
    lemma_sweep_mid_consistent(registry, reports, before);
    if before == ended {
        let after = mid.requeued_at(kept);
        assert(after.queue[mid.queue.len() as int] == peripheral);
        assert forall|j: int| 0 <= j < after.sessions.len() implies (
        #[trigger] after.sessions[j]).peripheral.address != peripheral.address by {
            let source = if j < kept {
                j
            } else {
                j + 1
            };
            assert(after.sessions[j] == mid.sessions[source]);
            if source < kept {
                assert(mid.sessions[source].peripheral.address
                    != mid.sessions[kept].peripheral.address);
            } else {
                assert(mid.sessions[kept].peripheral.address
                    != mid.sessions[source].peripheral.address);
            }
        }
    } else {
        lemma_sweep_hands_back(registry, reports, ended, before);
        if ends_session(reports[before as int]) {
            lemma_requeue_keeps_handed_back(mid, kept, peripheral);
        }
    }
}

/// After a sweep in which the command to a session could not be sent, the
/// device of that session is queued for inspection, no active session has
/// its address, and its sensor is not online.
pub proof fn lemma_send_failure_hands_back(
    registry: RegistryView,
    reports: Seq<PollReport>,
    ended: int,
)
    requires
        registry.consistent(),
        0 <= ended < registry.polled(reports),
        ends_session(reports[ended]),
    ensures
        registry.swept(reports).handed_back(registry.sessions[ended].peripheral),
{
    lemma_sweep_hands_back(registry, reports, ended, registry.polled(reports));
}

/// One thing that can happen to the registry.
pub enum RegistryEvent {
    /// A device was discovered.
    Discovered(PeripheralView),
    /// A device was lost.
    Disconnected(Seq<u8>),
    /// The next device was taken off the queue.
    Popped,
    /// The inspection of a device ended.
    Inspected(PeripheralView, Option<Vec<Characteristic>>, Option<Exchange>),
    /// A poll sweep was sorted out.
    Swept(Seq<PollReport>),
}

impl RegistryView {
    /// The registry after one event.
    pub open spec fn after(self, event: RegistryEvent) -> RegistryView {
        match event {
            RegistryEvent::Discovered(peripheral) => self.discovered(peripheral),
            RegistryEvent::Disconnected(address) => self.disconnected(address),
            RegistryEvent::Popped => self.popped(),
            RegistryEvent::Inspected(peripheral, discovered, handshake) => self.inspected(
                peripheral,
                discovered,
                handshake,
            ),
            RegistryEvent::Swept(reports) => self.swept(reports),
        }
    }

    /// Whether an event brings no device into the registry under an address
    /// that is known already.
    pub open spec fn welcomes(self, event: RegistryEvent) -> bool {
        match event {
            RegistryEvent::Discovered(peripheral) => self.admits(peripheral.address),
            RegistryEvent::Inspected(peripheral, _, _) => self.admits(peripheral.address),
            _ => true,
        }
    }

    /// The registry after a sequence of events, in order.
    pub open spec fn after_all(self, events: Seq<RegistryEvent>) -> RegistryView
        decreases events.len(),
    {
        if events.len() == 0 {
            self
        } else {
            self.after(events[0]).after_all(events.skip(1))
        }
    }

    /// Whether each event of a sequence is welcome at the moment at which it
    /// happens.
    pub open spec fn welcomes_all(self, events: Seq<RegistryEvent>) -> bool
        decreases events.len(),
    {
        events.len() == 0 || (self.welcomes(events[0]) && self.after(events[0]).welcomes_all(
            events.skip(1),
        ))
    }
}

/// One welcome event leaves a consistent registry consistent.
pub proof fn lemma_event_consistent(registry: RegistryView, event: RegistryEvent)
    requires
        registry.consistent(),
        registry.welcomes(event),
    ensures
        registry.after(event).consistent(),
{
    match event {
        RegistryEvent::Discovered(peripheral) => lemma_discovered_consistent(registry, peripheral),
        RegistryEvent::Disconnected(address) => lemma_disconnected_consistent(registry, address),
        RegistryEvent::Popped => lemma_popped_consistent(registry),
        RegistryEvent::Inspected(peripheral, discovered, handshake) => lemma_inspected_consistent(
            registry,
            peripheral,
            discovered,
            handshake,
        ),
        RegistryEvent::Swept(reports) => lemma_swept_consistent(registry, reports),
    }
}

/// Whatever sequence of welcome events happens to a consistent registry, it
/// stays consistent; in particular no address is ever queued and active at
/// the same time.
pub proof fn lemma_events_consistent(registry: RegistryView, events: Seq<RegistryEvent>)
    requires
        registry.consistent(),
        registry.welcomes_all(events),
    ensures
        registry.after_all(events).consistent(),
        registry.after_all(events).exclusive(),
    decreases events.len(),
{
    if events.len() > 0 {
        lemma_event_consistent(registry, events[0]);
        lemma_events_consistent(registry.after(events[0]), events.skip(1));
    }
}

} // verus!
