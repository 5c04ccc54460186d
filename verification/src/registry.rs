//! The registry of admitted peers.
//!
//! The registry is the node's one answer to "whom are we connected to". For
//! each admitted peer it keeps the handle of the peer's outbound channel, under
//! the peer's address, and it keeps the node's own address once the listener has
//! bound. It never touches a socket, and it never sends on a channel: it hands
//! out the sending end, and the driver enqueues.

use crate::address::PeerAddress;
use crate::cell::{cell_get, cell_new, cell_set, cell_value};
use crate::channel::{channel_capacity, Outbound, OUTBOUND_CHANNEL_CAPACITY};
use crate::error::NetworkError;
use once_cell::sync::OnceCell;
use vstd::prelude::*;

verus! {

struct Entry {
    address: PeerAddress,
    outbound: Outbound,
}

/// The admitted peers of a node, and the node's own address.
pub struct PeerRegistry {
    entries: Vec<Entry>,
    local: OnceCell<PeerAddress>,
}

/// The mathematical value of a [`PeerRegistry`].
pub struct RegistryView {
    /// The outbound channel handle of each admitted peer.
    pub peers: Map<PeerAddress, Outbound>,
    /// The address that the listener has bound, once it has.
    pub local_address: Option<PeerAddress>,
}

/// What is done to a registry over its life.
pub enum RegistryEvent {
    /// A handshake for this address has completed, and this is the handle of
    /// the channel opened for the peer.
    Admitted(PeerAddress, Outbound),
    /// The session of this address has terminated.
    Terminated(PeerAddress),
}

impl RegistryView {
    /// The registry of a node that has not bound its listener.
    pub open spec fn empty() -> RegistryView {
        RegistryView { peers: Map::empty(), local_address: None }
    }

    /// The registry of a node that listens at `local` and has no peers.
    pub open spec fn listening(local: PeerAddress) -> RegistryView {
        RegistryView { peers: Map::empty(), local_address: Some(local) }
    }

    /// What every registry keeps to: there are finitely many entries, none
    /// before the listener has bound, and never one under the node's own
    /// address; and the channel of every entry was made with the capacity that
    /// outbound channels have.
    pub open spec fn wf(self) -> bool {
        &&& self.peers.dom().finite()
        &&& match self.local_address {
            Some(local) => !self.peers.contains_key(local),
            None => self.peers == Map::<PeerAddress, Outbound>::empty(),
        }
        &&& forall|address: PeerAddress| #[trigger]
            self.peers.contains_key(address) ==> channel_capacity(self.peers[address])
                == OUTBOUND_CHANNEL_CAPACITY
    }

    pub open spec fn is_connected_to(self, address: PeerAddress) -> bool {
        self.peers.contains_key(address)
    }

    pub open spec fn connection_count(self) -> nat {
        self.peers.len()
    }

    /// Whether an entry may be made under `address`: the node knows its own
    /// address, and `address` is another.
    pub open spec fn insertable(self, address: PeerAddress) -> Result<(), NetworkError> {
        match self.local_address {
            None => Err(NetworkError::LocalAddressUnknown),
            Some(local) => if address == local {
                Err(NetworkError::SelfConnectAttempt)
            } else {
                Ok(())
            },
        }
    }

    /// The registry after a handshake for `address` has completed: the entry
    /// of `address` holds `outbound`, in place of any handle it held before. A
    /// registry that cannot take the address stays as it is.
    pub open spec fn insert(self, address: PeerAddress, outbound: Outbound) -> RegistryView {
        if self.insertable(address) is Ok {
            RegistryView {
                peers: self.peers.insert(address, outbound),
                local_address: self.local_address,
            }
        } else {
            self
        }
    }

    /// The registry after the session of `address` has terminated.
    pub open spec fn remove(self, address: PeerAddress) -> RegistryView {
        RegistryView { peers: self.peers.remove(address), local_address: self.local_address }
    }

    /// The registry after the listener has bound `local`.
    pub open spec fn bind(self, local: PeerAddress) -> RegistryView {
        RegistryView { peers: self.peers, local_address: Some(local) }
    }

    pub open spec fn apply(self, event: RegistryEvent) -> RegistryView {
        match event {
            RegistryEvent::Admitted(address, outbound) => self.insert(address, outbound),
            RegistryEvent::Terminated(address) => self.remove(address),
        }
    }

    /// The registry after a sequence of events.
    pub open spec fn replay(self, events: Seq<RegistryEvent>) -> RegistryView
        decreases events.len(),
    {
        if events.len() == 0 {
            self
        } else {
            self.replay(events.drop_last()).apply(events.last())
        }
    }
}

/// Whether, at the end of `events`, a handshake for `address` has completed and
/// no session of `address` has terminated since.
pub open spec fn is_live(events: Seq<RegistryEvent>, address: PeerAddress) -> bool {
    exists|i: int|
        0 <= i < events.len() && (#[trigger] events[i]) is Admitted && events[i]->Admitted_0
            == address && forall|j: int|
            i < j < events.len() ==> #[trigger] events[j] != RegistryEvent::Terminated(
                address,
            )
}

/// On a node that listens at `local`, after any sequence of completed
/// handshakes and terminated sessions: the registry is connected to an address
/// if and only if a handshake for it has completed and no session of it has
/// terminated since.
///
/// This is said of every address but the node's own, under which the registry
/// never makes an entry.
pub proof fn connected_iff_live(
    local: PeerAddress,
    events: Seq<RegistryEvent>,
    address: PeerAddress,
)
    requires
        address != local,
    ensures
        RegistryView::listening(local).replay(events).is_connected_to(address) <==> is_live(
            events,
            address,
        ),
        RegistryView::listening(local).replay(events).local_address == Some(local),
    decreases events.len(),
{
    if events.len() > 0 {
        let earlier = events.drop_last();
        let last = events.last();
        let n = earlier.len() as int;
        connected_iff_live(local, earlier, address);
        assert(forall|k: int| 0 <= k < n ==> earlier[k] == events[k]);
        assert(events[n] == last);
        let ends_it = last == RegistryEvent::Terminated(address);
        let begins_it = last is Admitted && last->Admitted_0 == address;
        if begins_it {
            assert(forall|j: int|
                n < j < events.len() ==> #[trigger] events[j] != RegistryEvent::Terminated(
                    address,
                ));
            assert(is_live(events, address));
        } else if ends_it {
            if is_live(events, address) {
                let i = choose|i: int|
                    0 <= i < events.len() && (#[trigger] events[i]) is Admitted
                        && events[i]->Admitted_0 == address && forall|j: int|
                        i < j < events.len() ==> #[trigger] events[j]
                            != RegistryEvent::Terminated(address);
                assert(i < n);
                assert(events[n] != RegistryEvent::Terminated(address));
            }
        } else {
            if is_live(earlier, address) {
                let i = choose|i: int|
                    0 <= i < earlier.len() && (#[trigger] earlier[i]) is Admitted
                        && earlier[i]->Admitted_0 == address && forall|j: int|
                        i < j < earlier.len() ==> #[trigger] earlier[j]
                            != RegistryEvent::Terminated(address);
                assert(events[i] is Admitted && events[i]->Admitted_0 == address);
                assert forall|j: int| i < j < events.len() implies #[trigger] events[j]
                    != RegistryEvent::Terminated(address) by {
                    if j < n {
                        assert(earlier[j] != RegistryEvent::Terminated(address));
                    }
                }
                assert(is_live(events, address));
            }
            if is_live(events, address) {
                let i = choose|i: int|
                    0 <= i < events.len() && (#[trigger] events[i]) is Admitted
                        && events[i]->Admitted_0 == address && forall|j: int|
                        i < j < events.len() ==> #[trigger] events[j]
                            != RegistryEvent::Terminated(address);
                assert(i < n);
                assert(earlier[i] is Admitted && earlier[i]->Admitted_0 == address);
                assert forall|j: int| i < j < earlier.len() implies #[trigger] earlier[j]
                    != RegistryEvent::Terminated(address) by {
                    assert(events[j] != RegistryEvent::Terminated(address));
                }
                assert(is_live(earlier, address));
            }
        }
    }
}

/// Making an entry adds at most the one entry of the address and leaves every
/// other as it was. A registry that cannot take the address stays as it is.
pub proof fn insertion_adds_one_entry(
    registry: RegistryView,
    address: PeerAddress,
    outbound: Outbound,
)
    requires
        registry.wf(),
    ensures
        channel_capacity(outbound) == OUTBOUND_CHANNEL_CAPACITY ==> registry.insert(
            address,
            outbound,
        ).wf(),
        registry.insertable(address) is Err ==> registry.insert(address, outbound) == registry,
        registry.insertable(address) is Ok ==> {
            &&& registry.insert(address, outbound).is_connected_to(address)
            &&& registry.insert(address, outbound).peers[address] == outbound
            &&& registry.insert(address, outbound).connection_count()
                == registry.connection_count() + (if registry.is_connected_to(address) {
                0nat
            } else {
                1nat
            })
        },
        forall|other: PeerAddress|
            other != address ==> registry.insert(address, outbound).peers.contains_key(other)
                == registry.peers.contains_key(other),
        forall|other: PeerAddress|
            other != address && registry.peers.contains_key(other) ==> registry.insert(
                address,
                outbound,
            ).peers[other] == registry.peers[other],
{
    if registry.insertable(address) is Ok {
        assert(registry.insert(address, outbound).peers.dom() =~= registry.peers.dom().insert(
            address,
        ));
    }
}

/// Erasing takes at most the one entry of the address and leaves every other
/// as it was; where there is no entry it changes nothing, so that erasing twice
/// is erasing once.
pub proof fn removal_is_idempotent(registry: RegistryView, address: PeerAddress)
    requires
        registry.wf(),
    ensures
        registry.remove(address).wf(),
        !registry.remove(address).is_connected_to(address),
        !registry.is_connected_to(address) ==> registry.remove(address) == registry,
        registry.remove(address).remove(address) == registry.remove(address),
        registry.remove(address).connection_count() == registry.connection_count() - (
        if registry.is_connected_to(address) {
            1nat
        } else {
            0nat
        }),
        forall|other: PeerAddress|
            other != address ==> registry.remove(address).peers.contains_key(other)
                == registry.peers.contains_key(other),
        forall|other: PeerAddress|
            other != address && registry.peers.contains_key(other) ==> registry.remove(
                address,
            ).peers[other] == registry.peers[other],
{
    let once = registry.remove(address);
    assert(once.peers.dom() =~= registry.peers.dom().remove(address));
    assert(once.remove(address).peers =~= once.peers);
    if !registry.is_connected_to(address) {
        assert(once.peers =~= registry.peers);
    }
    if registry.local_address is None {
        assert(once.peers =~= Map::<PeerAddress, Outbound>::empty());
    }
}

spec fn has_key(entries: Seq<Entry>, address: PeerAddress) -> bool {
    exists|i: int| 0 <= i < entries.len() && (#[trigger] entries[i]).address == address
}

spec fn index_of(entries: Seq<Entry>, address: PeerAddress) -> int {
    choose|i: int| 0 <= i < entries.len() && (#[trigger] entries[i]).address == address
}

spec fn distinct(entries: Seq<Entry>) -> bool {
    forall|i: int, j: int|
        0 <= i < j < entries.len() ==> (#[trigger] entries[i]).address != (
        #[trigger] entries[j]).address
}

spec fn as_map(entries: Seq<Entry>) -> Map<PeerAddress, Outbound> {
    Map::new(
        |address: PeerAddress| has_key(entries, address),
        |address: PeerAddress| entries[index_of(entries, address)].outbound,
    )
}

proof fn lemma_lookup(entries: Seq<Entry>, i: int)
    requires
        distinct(entries),
        0 <= i < entries.len(),
    ensures
        has_key(entries, entries[i].address),
        index_of(entries, entries[i].address) == i,
        as_map(entries).contains_key(entries[i].address),
        as_map(entries)[entries[i].address] == entries[i].outbound,
{
    let address = entries[i].address;
    assert(has_key(entries, address));
    let k = index_of(entries, address);
    assert(0 <= k < entries.len() && entries[k].address == address);
    if k < i {
        assert(entries[k].address != entries[i].address);
    } else if i < k {
        assert(entries[i].address != entries[k].address);
    }
}

proof fn lemma_push(entries: Seq<Entry>, entry: Entry)
    requires
        distinct(entries),
        !has_key(entries, entry.address),
    ensures
        distinct(entries.push(entry)),
        as_map(entries.push(entry)) == as_map(entries).insert(entry.address, entry.outbound),
{
    let after = entries.push(entry);
    assert forall|i: int, j: int| 0 <= i < j < after.len() implies (#[trigger] after[i]).address
        != (#[trigger] after[j]).address by {
        if j == entries.len() {
            assert(after[i] == entries[i]);
        } else {
            assert(after[i] == entries[i] && after[j] == entries[j]);
        }
    }
    assert forall|address: PeerAddress| #[trigger]
        has_key(after, address) == (has_key(entries, address) || address
            == entry.address) by {
        if has_key(after, address) {
            let k = index_of(after, address);
            if k < entries.len() {
                assert(entries[k].address == address);
            }
        }
        if has_key(entries, address) {
            let k = index_of(entries, address);
            assert(after[k].address == address);
        }
        if address == entry.address {
            assert(after[entries.len() as int].address == address);
        }
    }
    assert forall|address: PeerAddress| has_key(after, address) implies #[trigger] as_map(
        after,
    )[address] == as_map(entries).insert(entry.address, entry.outbound)[address] by {
        let k = index_of(after, address);
        lemma_lookup(after, k);
        if k < entries.len() {
            assert(after[k] == entries[k]);
            lemma_lookup(entries, k);
        }
    }
    assert(as_map(after) =~= as_map(entries).insert(entry.address, entry.outbound));
}

proof fn lemma_remove(entries: Seq<Entry>, i: int)
    requires
        distinct(entries),
        0 <= i < entries.len(),
    ensures
        distinct(entries.remove(i)),
        as_map(entries.remove(i)) == as_map(entries).remove(entries[i].address),
{
    let after = entries.remove(i);
    let gone = entries[i].address;
    assert forall|a: int| 0 <= a < after.len() implies #[trigger] after[a] == entries[if a < i {
        a
    } else {
        a + 1
    }] by {}
    assert forall|a: int, b: int| 0 <= a < b < after.len() implies (#[trigger] after[a]).address
        != (#[trigger] after[b]).address by {
        let a0 = if a < i { a } else { a + 1 };
        let b0 = if b < i { b } else { b + 1 };
        assert(after[a] == entries[a0] && after[b] == entries[b0]);
        assert(entries[a0].address != entries[b0].address);
    }
    assert forall|address: PeerAddress| #[trigger]
        has_key(after, address) == (has_key(entries, address) && address != gone) by {
        if has_key(after, address) {
            let k = index_of(after, address);
            let k0 = if k < i { k } else { k + 1 };
            assert(after[k] == entries[k0]);
            assert(entries[k0].address == address);
            if address == gone {
                if k0 < i {
                    assert(entries[k0].address != entries[i].address);
                } else {
                    assert(entries[i].address != entries[k0].address);
                }
            }
        }
        if has_key(entries, address) && address != gone {
            let k0 = index_of(entries, address);
            let k = if k0 < i { k0 } else { k0 - 1 };
            assert(after[k] == entries[k0]);
            assert(after[k].address == address);
        }
    }
    assert forall|address: PeerAddress| has_key(after, address) implies #[trigger] as_map(
        after,
    )[address] == as_map(entries)[address] by {
        let k = index_of(after, address);
        let k0 = if k < i { k } else { k + 1 };
        assert(after[k] == entries[k0]);
        lemma_lookup(after, k);
        lemma_lookup(entries, k0);
    }
    assert(as_map(after) =~= as_map(entries).remove(gone));
}

proof fn lemma_count(entries: Seq<Entry>)
    requires
        distinct(entries),
    ensures
        as_map(entries).dom().finite(),
        as_map(entries).dom().len() == entries.len(),
    decreases entries.len(),
{
    if entries.len() == 0 {
        assert(as_map(entries).dom() =~= Set::<PeerAddress>::empty());
    } else {
        let earlier = entries.drop_last();
        let last = entries.last();
        assert forall|i: int, j: int| 0 <= i < j < earlier.len() implies (
        #[trigger] earlier[i]).address != (#[trigger] earlier[j]).address by {
            assert(earlier[i] == entries[i] && earlier[j] == entries[j]);
        }
        if has_key(earlier, last.address) {
            let k = index_of(earlier, last.address);
            assert(earlier[k] == entries[k]);
            assert(entries[k].address != entries[entries.len() - 1].address);
        }
        lemma_count(earlier);
        lemma_push(earlier, last);
        assert(earlier.push(last) =~= entries);
        assert(as_map(entries).dom() =~= as_map(earlier).dom().insert(last.address));
    }
}

impl View for PeerRegistry {
    type V = RegistryView;

    closed spec fn view(&self) -> RegistryView {
        RegistryView { peers: as_map(self.entries@), local_address: cell_value(self.local) }
    }
}

impl PeerRegistry {
    #[verifier::type_invariant]
    pub(crate) closed spec fn inv(self) -> bool {
        &&& distinct(self.entries@)
        &&& match cell_value(self.local) {
            Some(local) => !has_key(self.entries@, local),
            None => self.entries@.len() == 0,
        }
        &&& forall|i: int|
            0 <= i < self.entries@.len() ==> channel_capacity(
                (#[trigger] self.entries@[i]).outbound,
            ) == OUTBOUND_CHANNEL_CAPACITY
    }

    pub(crate) proof fn lemma_wf(self)
        requires
            self.inv(),
        ensures
            self@.wf(),
    {
        lemma_count(self.entries@);
        if cell_value(self.local) is None {
            assert(self@.peers =~= Map::<PeerAddress, Outbound>::empty());
        }
        assert forall|address: PeerAddress| #[trigger]
            self@.peers.contains_key(address) implies channel_capacity(self@.peers[address])
            == OUTBOUND_CHANNEL_CAPACITY by {
            lemma_lookup(self.entries@, index_of(self.entries@, address));
        }
    }

    /// The registry of a node that has no peers and has not bound its
    /// listener.
    pub fn new() -> (registry: PeerRegistry)
        ensures
            registry@ == RegistryView::empty(),
            registry@.wf(),
    {
        let registry = PeerRegistry { entries: Vec::new(), local: cell_new() };
        assert(registry@.peers =~= Map::<PeerAddress, Outbound>::empty());
        registry
    }

    fn position(&self, address: PeerAddress) -> (found: Option<usize>)
        ensures
            match found {
                Some(i) => i < self.entries@.len() && self.entries@[i as int].address == address,
                None => !has_key(self.entries@, address),
            },
    {
        let mut i: usize = 0;
        while i < self.entries.len()
            invariant
                i <= self.entries@.len(),
                forall|k: int| 0 <= k < i ==> (#[trigger] self.entries@[k]).address != address,
            decreases self.entries@.len() - i,
        {
            if self.entries[i].address == address {
                return Some(i);
            }
            i += 1;
        }
        None
    }

    /// Whether there is an admitted session for `address`.
    pub fn is_connected_to(&self, address: PeerAddress) -> (connected: bool)
        ensures
            connected == self@.is_connected_to(address),
    {
        self.position(address).is_some()
    }

    /// The number of admitted peers.
    pub fn connection_count(&self) -> (count: usize)
        ensures
            count == self@.connection_count(),
            self@.wf(),
    {
        proof {
            use_type_invariant(self);
            lemma_count(self.entries@);
            self.lemma_wf();
        }
        self.entries.len()
    }

    /// The address that the listener has bound.
    pub fn local_address(&self) -> (local: Result<PeerAddress, NetworkError>)
        ensures
            local == match self@.local_address {
                Some(address) => Ok::<PeerAddress, NetworkError>(address),
                None => Err(NetworkError::LocalAddressUnknown),
            },
    {
        match cell_get(&self.local) {
            Some(address) => Ok(address),
            None => Err(NetworkError::LocalAddressUnknown),
        }
    }

    /// Records the address that the listener has bound, in a registry that
    /// holds none yet.
    pub(crate) fn set_local_address(&mut self, local: PeerAddress)
        requires
            old(self)@.local_address is None,
        ensures
            final(self)@ == old(self)@.bind(local),
            final(self)@.wf(),
    {
        proof {
            use_type_invariant(&*self);
        }
        let _ = cell_set(&mut self.local, local);
        proof {
            self.lemma_wf();
        }
    }

    /// The handle on which a message for `address` is to be enqueued.
    pub fn send_to(&self, address: PeerAddress) -> (outbound: Result<&Outbound, NetworkError>)
        ensures
            match outbound {
                Ok(handle) => {
                    &&& self@.is_connected_to(address)
                    &&& *handle == self@.peers[address]
                    &&& channel_capacity(*handle) == OUTBOUND_CHANNEL_CAPACITY
                },
                Err(error) => !self@.is_connected_to(address) && error
                    == NetworkError::PeerNotConnected,
            },
    {
        proof {
            use_type_invariant(self);
        }
        match self.position(address) {
            Some(i) => {
                proof {
                    lemma_lookup(self.entries@, i as int);
                }
                Ok(&self.entries[i].outbound)
            },
            None => Err(NetworkError::PeerNotConnected),
        }
    }

    /// Every admitted peer but `exclude`, each once, with the handle on which
    /// a message for it is to be enqueued.
    ///
    /// The registry does not look at the channels: a peer whose channel is
    /// closed or full is among the targets like any other, and what becomes of
    /// one delivery has no bearing on the next.
    pub fn broadcast(&self, exclude: PeerAddress) -> (targets: Vec<(PeerAddress, &Outbound)>)
        ensures
            forall|k: int|
                0 <= k < targets@.len() ==> {
                    &&& (#[trigger] targets@[k]).0 != exclude
                    &&& self@.is_connected_to(targets@[k].0)
                    &&& *targets@[k].1 == self@.peers[targets@[k].0]
                    &&& channel_capacity(*targets@[k].1) == OUTBOUND_CHANNEL_CAPACITY
                },
            forall|address: PeerAddress|
                self@.is_connected_to(address) && address != exclude ==> exists|k: int|
                    0 <= k < targets@.len() && (#[trigger] targets@[k]).0 == address,
            forall|j: int, k: int|
                0 <= j < k < targets@.len() ==> (#[trigger] targets@[j]).0 != (
                #[trigger] targets@[k]).0,
            targets@.len() == self@.remove(exclude).connection_count(),
    {
        proof {
            use_type_invariant(self);
        }
        let mut targets: Vec<(PeerAddress, &Outbound)> = Vec::new();
        let ghost mut origin: Seq<int> = Seq::empty();
        let ghost mut skipped: int = 0;
        let mut i: usize = 0;
        while i < self.entries.len()
            invariant
                i <= self.entries@.len(),
                distinct(self.entries@),
                origin.len() == targets@.len(),
                targets@.len() + skipped == i,
                skipped == 0 || skipped == 1,
                skipped == 1 <==> exists|j: int|
                    0 <= j < i && (#[trigger] self.entries@[j]).address == exclude,
                forall|k: int|
                    0 <= k < targets@.len() ==> {
                        &&& 0 <= #[trigger] origin[k] < i
                        &&& targets@[k].0 == self.entries@[origin[k]].address
                        &&& *targets@[k].1 == self.entries@[origin[k]].outbound
                        &&& targets@[k].0 != exclude
                    },
                forall|j: int, k: int|
                    0 <= j < k < targets@.len() ==> #[trigger] origin[j] < #[trigger] origin[k],
                forall|j: int|
                    0 <= j < i && (#[trigger] self.entries@[j]).address != exclude
                        ==> exists|k: int|
                        0 <= k < targets@.len() && #[trigger] origin[k] == j,
            decreases self.entries@.len() - i,
        {
            let entry = &self.entries[i];
            let ghost before = origin;
            let ghost count = targets@.len() as int;
            if entry.address != exclude {
                targets.push((entry.address, &entry.outbound));
                proof {
                    origin = origin.push(i as int);
                    assert forall|j: int|
                        0 <= j < i + 1 && (#[trigger] self.entries@[j]).address
                            != exclude implies exists|k: int|
                        0 <= k < targets@.len() && #[trigger] origin[k] == j by {
                        if j < i {
                            let k = choose|k: int| 0 <= k < count && #[trigger] before[k] == j;
                            assert(origin[k] == j);
                        } else {
                            assert(origin[count] == j);
                        }
                    }
                }
            } else {
                proof {
                    if skipped == 1 {
                        let j = choose|j: int|
                            0 <= j < i && (#[trigger] self.entries@[j]).address == exclude;
                        assert(self.entries@[j].address != self.entries@[i as int].address);
                    }
                    skipped = 1;
                }
            }
            i += 1;
        }
        proof {
            let entries = self.entries@;
            lemma_count(entries);
            assert forall|k: int| 0 <= k < targets@.len() implies {
                &&& (#[trigger] targets@[k]).0 != exclude
                &&& self@.is_connected_to(targets@[k].0)
                &&& *targets@[k].1 == self@.peers[targets@[k].0]
                &&& channel_capacity(*targets@[k].1) == OUTBOUND_CHANNEL_CAPACITY
            } by {
                lemma_lookup(entries, origin[k]);
            }
            assert forall|address: PeerAddress|
                self@.is_connected_to(address) && address != exclude implies exists|k: int|
                0 <= k < targets@.len() && (#[trigger] targets@[k]).0 == address by {
                let j = index_of(entries, address);
                assert(entries[j].address == address);
                let k = choose|k: int| 0 <= k < targets@.len() && #[trigger] origin[k] == j;
                assert(targets@[k].0 == address);
            }
            assert forall|j: int, k: int| 0 <= j < k < targets@.len() implies (
            #[trigger] targets@[j]).0 != (#[trigger] targets@[k]).0 by {
                assert(origin[j] < origin[k]);
                assert(entries[origin[j]].address != entries[origin[k]].address);
            }
            assert(self@.remove(exclude).peers.dom() =~= self@.peers.dom().remove(exclude));
            assert(has_key(entries, exclude) <==> skipped == 1);
        }
        targets
    }

    /// Makes the entry of `address`, with the handle of the channel opened for
    /// it. A handle that the address had before is replaced and handed back.
    ///
    /// Nothing is entered before the listener has bound, and nothing under the
    /// node's own address.
    pub(crate) fn insert(
        &mut self,
        address: PeerAddress,
        outbound: Outbound,
    ) -> (replaced: Result<Option<Outbound>, NetworkError>)
        requires
            channel_capacity(outbound) == OUTBOUND_CHANNEL_CAPACITY,
        ensures
            final(self)@ == old(self)@.insert(address, outbound),
            final(self)@.wf(),
            match replaced {
                Ok(previous) => {
                    &&& old(self)@.insertable(address) is Ok
                    &&& previous == if old(self)@.is_connected_to(address) {
                        Some(old(self)@.peers[address])
                    } else {
                        None
                    }
                },
                Err(error) => old(self)@.insertable(address) == Err::<(), NetworkError>(error),
            },
    {
        proof {
            use_type_invariant(&*self);
        }
        match cell_get(&self.local) {
            None => {
                proof {
                    self.lemma_wf();
                }
                return Err(NetworkError::LocalAddressUnknown);
            },
            Some(local) => {
                if address == local {
                    proof {
                        self.lemma_wf();
                    }
                    return Err(NetworkError::SelfConnectAttempt);
                }
            },
        }
        let found = self.position(address);
        let mut entries: Vec<Entry> = Vec::new();
        std::mem::swap(&mut self.entries, &mut entries);
        let ghost before = entries@;
        let previous = match found {
            Some(i) => {
                proof {
                    lemma_lookup(before, i as int);
                    lemma_remove(before, i as int);
                }
                Some(entries.remove(i).outbound)
            },
            None => None,
        };
        proof {
            lemma_push(entries@, Entry { address, outbound });
            assert(as_map(entries@).insert(address, outbound) =~= as_map(before).insert(
                address,
                outbound,
            ));
        }
        entries.push(Entry { address, outbound });
        self.entries = entries;
        proof {
            self.lemma_wf();
        }
        Ok(previous)
    }

    /// Erases the entry of a peer whose session has terminated and hands its
    /// handle back. Where there is no such entry nothing happens.
    pub fn remove(&mut self, address: PeerAddress) -> (removed: Option<Outbound>)
        ensures
            final(self)@ == old(self)@.remove(address),
            final(self)@.wf(),
            removed == (if old(self)@.is_connected_to(address) {
                Some(old(self)@.peers[address])
            } else {
                None
            }),
    {
        proof {
            use_type_invariant(&*self);
        }
        match self.position(address) {
            Some(i) => {
                let mut entries: Vec<Entry> = Vec::new();
                std::mem::swap(&mut self.entries, &mut entries);
                proof {
                    lemma_lookup(entries@, i as int);
                    lemma_remove(entries@, i as int);
                }
                let removed = entries.remove(i);
                self.entries = entries;
                proof {
                    self.lemma_wf();
                }
                Some(removed.outbound)
            },
            None => {
                proof {
                    assert(as_map(self.entries@).remove(address) =~= as_map(self.entries@));
                    self.lemma_wf();
                }
                None
            },
        }
    }
}

} // verus!
