//! The adapter core: the single authoritative, address-keyed peripheral
//! registry for one local adapter, and the event bus that fans lifecycle
//! events out to subscribers. Registry mutations are published as events
//! only after they are visible to reads.

use vstd::prelude::*;
use crate::addr::BDAddr;
use crate::assoc::{
    keys_unique, kv_view, lemma_kv_view_contains, lemma_kv_view_index, lemma_kv_view_push,
    lemma_kv_view_update,
};
use crate::bus::{CentralEvent, EventBus, RecvOutcome};
use crate::Error;
use crate::gatt::{chars_sorted, Characteristic};
use crate::peripheral::{Peripheral, PeripheralModel};
use crate::props::{empty_props, merge_props, PeripheralProperties};

verus! {

/// Key of a registry entry: the peripheral's address.
pub open spec fn reg_keyf() -> spec_fn(Peripheral) -> BDAddr {
    |p: Peripheral| p.addr
}

/// Modelled value of a registry entry.
pub open spec fn reg_valf() -> spec_fn(Peripheral) -> PeripheralModel {
    |p: Peripheral| p@
}

/// The map view of a registry list.
pub open spec fn registry_view(s: Seq<Peripheral>) -> Map<BDAddr, PeripheralModel> {
    kv_view(s, reg_keyf(), reg_valf())
}

/// How many events a subscriber may fall behind before it starts missing
/// them.
pub const DEFAULT_EVENT_CAPACITY: usize = 16;

/// One local adapter's core: the peripheral registry (at most one entry
/// per address, insertion-ordered) and the event bus.
pub struct Adapter {
    pub registry: Vec<Peripheral>,
    pub bus: EventBus,
}

impl Adapter {
    /// Well-formed: registry addresses are pairwise distinct, every entry
    /// is well-formed, and the bus is well-formed.
    pub open spec fn wf(self) -> bool {
        &&& keys_unique(self.registry@, reg_keyf())
        &&& forall|i: int| 0 <= i < self.registry@.len() ==> (#[trigger] self.registry@[i]).wf()
        &&& self.bus.wf()
    }

    /// The registry as a map from address to peripheral model.
    pub open spec fn reg(self) -> Map<BDAddr, PeripheralModel> {
        registry_view(self.registry@)
    }

    /// Every event emitted so far, in emission order.
    pub open spec fn events(self) -> Seq<CentralEvent> {
        self.bus.log@
    }

    /// How many subscribers the event bus has.
    pub open spec fn subscriber_count(self) -> nat {
        self.bus.cursors@.len()
    }

    /// A fresh adapter: empty registry, no events, no subscribers.
    pub fn new() -> (r: Adapter)
        ensures
            r.wf(),
            r.reg() == Map::<BDAddr, PeripheralModel>::empty(),
            r.registry@ == Seq::<Peripheral>::empty(),
            r.events() == Seq::<CentralEvent>::empty(),
            r.subscriber_count() == 0,
    {
        Adapter { registry: Vec::new(), bus: EventBus::new(DEFAULT_EVENT_CAPACITY) }
    }

    /// Inserts a peripheral under its address if the address is absent; if
    /// the address is already registered this is a no-op, so every holder
    /// keeps referring to the entry that was there first. No event is
    /// emitted: discovery semantics are the caller's, via `emit`.
    pub fn add_peripheral(&mut self, address: BDAddr, peripheral: Peripheral)
        requires
            old(self).wf(),
            peripheral.wf(),
            peripheral.addr == address,
        ensures
            final(self).wf(),
            final(self).bus == old(self).bus,
            old(self).reg().dom().contains(address) ==> final(self).registry == old(self).registry,
            !old(self).reg().dom().contains(address) ==> {
                &&& final(self).registry@ == old(self).registry@.push(peripheral)
                &&& final(self).reg() == old(self).reg().insert(address, peripheral@)
            },
            final(self).reg().dom().contains(address),
    {
        proof {
            lemma_kv_view_contains(self.registry@, reg_keyf(), reg_valf(), address);
        }
        match self.find(address) {
            Some(_) => {},
            None => {
                self.registry.push(peripheral);
                proof {
                    lemma_kv_view_push(
                        old(self).registry@,
                        reg_keyf(),
                        reg_valf(),
                        self.registry@.last(),
                    );
                    assert forall|a: int, b: int|
                        0 <= a < b < self.registry@.len() implies reg_keyf()(self.registry@[a])
                        != reg_keyf()(self.registry@[b]) by {
                        if b < self.registry@.len() - 1 {
                            assert(reg_keyf()(old(self).registry@[a]) != reg_keyf()(
                                old(self).registry@[b],
                            ));
                        } else {
                            assert(old(self).registry@[a].addr != address);
                        }
                    }
                }
            },
        }
    }

    /// Exact-key lookup: a copy of the registered peripheral's state, or
    /// nothing if the address was never registered.
    pub fn peripheral(&self, address: BDAddr) -> (r: Option<Peripheral>)
        requires
            self.wf(),
        ensures
            r is Some <==> self.reg().dom().contains(address),
            r matches Some(p) ==> {
                &&& p@ == self.reg()[address]
                &&& p.addr == address
                &&& p.wf()
            },
    {
        proof {
            lemma_kv_view_contains(self.registry@, reg_keyf(), reg_valf(), address);
        }
        match self.find(address) {
            Some(i) => {
                proof {
                    lemma_kv_view_index(self.registry@, reg_keyf(), reg_valf(), i as int);
                }
                Some(self.registry[i].duplicate())
            },
            None => None,
        }
    }

    /// A snapshot of every registered peripheral, in insertion order
    /// (callers must not depend on the order).
    pub fn peripherals(&self) -> (r: Vec<Peripheral>)
        requires
            self.wf(),
        ensures
            r@.len() == self.registry@.len(),
            forall|i: int|
                0 <= i < r@.len() ==> (#[trigger] r@[i])@ == self.registry@[i]@ && r@[i].wf(),
    {
        let mut r: Vec<Peripheral> = Vec::new();
        let mut i: usize = 0;
        while i < self.registry.len()
            invariant
                self.wf(),
                i <= self.registry.len(),
                r@.len() == i,
                forall|t: int|
                    0 <= t < i ==> (#[trigger] r@[t])@ == self.registry@[t]@ && r@[t].wf(),
            decreases self.registry.len() - i,
        {
            r.push(self.registry[i].duplicate());
            i = i + 1;
        }
        r
    }

    /// Publishes one event to all current subscribers.
    pub fn emit(&mut self, event: CentralEvent)
        requires
            old(self).wf(),
        ensures
            final(self).wf(),
            final(self).registry == old(self).registry,
            final(self).events() == old(self).events().push(event),
            final(self).bus.cursors == old(self).bus.cursors,
            final(self).bus.capacity == old(self).bus.capacity,
    {
        self.bus.emit(event);
    }

    /// Registers a new event subscriber and hands back its identifier; the
    /// subscriber's delivery position starts at "now". Poll it with
    /// `next_event`.
    pub fn event_stream(&mut self) -> (id: usize)
        requires
            old(self).wf(),
        ensures
            final(self).wf(),
            final(self).registry == old(self).registry,
            final(self).events() == old(self).events(),
            final(self).bus.capacity == old(self).bus.capacity,
            id == old(self).subscriber_count(),
            final(self).subscriber_count() == old(self).subscriber_count() + 1,
            final(self).bus.pending(id as int) == Seq::<CentralEvent>::empty(),
    {
        self.bus.subscribe()
    }

    /// One receive attempt for subscriber `id`; see `EventBus::try_recv`.
    pub fn next_event(&mut self, id: usize) -> (r: RecvOutcome)
        requires
            old(self).wf(),
            id < old(self).subscriber_count(),
        ensures
            final(self).wf(),
            final(self).registry == old(self).registry,
            final(self).events() == old(self).events(),
            final(self).subscriber_count() == old(self).subscriber_count(),
            ({
                let c = old(self).bus.cursors@[id as int] as int;
                let n = old(self).events().len() as int;
                let cap = old(self).bus.capacity as int;
                if c == n {
                    &&& r is Empty
                    &&& final(self).bus.cursors@[id as int] as int == c
                } else if n - c > cap {
                    &&& r == RecvOutcome::Lagged(((n - cap) - c) as usize)
                    &&& final(self).bus.cursors@[id as int] as int == n - cap
                } else {
                    &&& r == RecvOutcome::Event(old(self).bus.pending(id as int)[0])
                    &&& final(self).bus.pending(id as int) == old(self).bus.pending(
                        id as int,
                    ).skip(1)
                    &&& final(self).bus.cursors@[id as int] as int == c + 1
                }
            }),
    {
        self.bus.try_recv(id)
    }

    /// A backend's discovery report for `address`: `Some` properties merge
    /// into the registry (creating the entry on first sight) and publish
    /// `DeviceUpdated` or `DeviceDiscovered`; `None` means the device is no
    /// longer observed, publishing `DeviceLost` for a known address. The
    /// event follows the registry mutation it describes. Unknown addresses
    /// with nothing to report fail fast with `DeviceNotFound`, never
    /// creating a phantom entry.
    pub fn report_properties(&mut self, address: BDAddr, report: Option<PeripheralProperties>) -> (r:
        Result<Peripheral, Error>)
        requires
            old(self).wf(),
            report matches Some(p) ==> p.wf() && p.address == address,
        ensures
            final(self).wf(),
            final(self).bus.cursors == old(self).bus.cursors,
            final(self).bus.capacity == old(self).bus.capacity,
            ({
                let known = old(self).reg().dom().contains(address);
                match report {
                    Some(p) => {
                        if known {
                            let updated = PeripheralModel {
                                props: merge_props(old(self).reg()[address].props, p@),
                                ..old(self).reg()[address]
                            };
                            &&& final(self).reg() == old(self).reg().insert(address, updated)
                            &&& final(self).events() == old(self).events().push(
                                CentralEvent::DeviceUpdated(address),
                            )
                            &&& r matches Ok(q) && q@ == updated && q.wf()
                        } else {
                            let created = PeripheralModel {
                                props: merge_props(empty_props(address), p@),
                                ..crate::peripheral::fresh_peripheral(address)
                            };
                            &&& final(self).reg() == old(self).reg().insert(address, created)
                            &&& final(self).events() == old(self).events().push(
                                CentralEvent::DeviceDiscovered(address),
                            )
                            &&& r matches Ok(q) && q@ == created && q.wf()
                        }
                    },
                    None => {
                        &&& final(self).registry == old(self).registry
                        &&& r == Err::<Peripheral, Error>(Error::DeviceNotFound)
                        &&& if known {
                            final(self).events() == old(self).events().push(
                                CentralEvent::DeviceLost(address),
                            )
                        } else {
                            final(self).events() == old(self).events()
                        }
                    },
                }
            }),
    {
        proof {
            lemma_kv_view_contains(self.registry@, reg_keyf(), reg_valf(), address);
        }
        match self.find(address) {
            Some(i) => {
                proof {
                    lemma_kv_view_index(self.registry@, reg_keyf(), reg_valf(), i as int);
                }
                match report {
                    Some(p) => {
                        let entry = &mut self.registry[i];
                        entry.report_properties(&p);
                        proof {
                            lemma_kv_view_update(
                                old(self).registry@,
                                reg_keyf(),
                                reg_valf(),
                                i as int,
                                self.registry@[i as int],
                            );
                            assert forall|a: int, b: int|
                                0 <= a < b < self.registry@.len() implies reg_keyf()(
                                self.registry@[a],
                            ) != reg_keyf()(self.registry@[b]) by {
                                assert(reg_keyf()(old(self).registry@[a]) != reg_keyf()(
                                    old(self).registry@[b],
                                ));
                            }
                        }
                        self.bus.emit(CentralEvent::DeviceUpdated(address));
                        proof {
                            lemma_kv_view_index(self.registry@, reg_keyf(), reg_valf(), i as int);
                        }
                        Ok(self.registry[i].duplicate())
                    },
                    None => {
                        self.bus.emit(CentralEvent::DeviceLost(address));
                        Err(Error::DeviceNotFound)
                    },
                }
            },
            None => {
                match report {
                    Some(p) => {
                        let mut created = Peripheral::new(address);
                        created.report_properties(&p);
                        let handle = created.duplicate();
                        self.registry.push(created);
                        proof {
                            lemma_kv_view_push(
                                old(self).registry@,
                                reg_keyf(),
                                reg_valf(),
                                self.registry@.last(),
                            );
                            assert forall|a: int, b: int|
                                0 <= a < b < self.registry@.len() implies reg_keyf()(
                                self.registry@[a],
                            ) != reg_keyf()(self.registry@[b]) by {
                                if b < self.registry@.len() - 1 {
                                    assert(reg_keyf()(old(self).registry@[a]) != reg_keyf()(
                                        old(self).registry@[b],
                                    ));
                                } else {
                                    assert(old(self).registry@[a].addr != address);
                                }
                            }
                        }
                        self.bus.emit(CentralEvent::DeviceDiscovered(address));
                        Ok(handle)
                    },
                    None => Err(Error::DeviceNotFound),
                }
            },
        }
    }

    /// A backend's report that the connection to `address` dropped —
    /// confirmation of a requested disconnect or a loss noticed by the
    /// radio. The entry re-enters `Disconnected` (cache cleared) and
    /// `DeviceDisconnected` is published, after the mutation. An unknown
    /// address fails fast with `DeviceNotFound`.
    pub fn report_disconnect(&mut self, address: BDAddr) -> (r: Result<(), Error>)
        requires
            old(self).wf(),
        ensures
            final(self).wf(),
            final(self).bus.cursors == old(self).bus.cursors,
            final(self).bus.capacity == old(self).bus.capacity,
            r is Ok <==> old(self).reg().dom().contains(address),
            r is Err ==> r == Err::<(), Error>(Error::DeviceNotFound),
            old(self).reg().dom().contains(address) ==> {
                let dropped = PeripheralModel {
                    state: crate::peripheral::ConnState::Disconnected,
                    chars: Seq::empty(),
                    ..old(self).reg()[address]
                };
                &&& final(self).reg() == old(self).reg().insert(address, dropped)
                &&& final(self).events() == old(self).events().push(
                    CentralEvent::DeviceDisconnected(address),
                )
            },
            !old(self).reg().dom().contains(address) ==> {
                &&& final(self).registry == old(self).registry
                &&& final(self).events() == old(self).events()
            },
    {
        proof {
            lemma_kv_view_contains(self.registry@, reg_keyf(), reg_valf(), address);
        }
        match self.find(address) {
            Some(i) => {
                proof {
                    lemma_kv_view_index(self.registry@, reg_keyf(), reg_valf(), i as int);
                }
                let entry = &mut self.registry[i];
                entry.on_disconnected();
                proof {
                    lemma_kv_view_update(
                        old(self).registry@,
                        reg_keyf(),
                        reg_valf(),
                        i as int,
                        self.registry@[i as int],
                    );
                    assert forall|a: int, b: int|
                        0 <= a < b < self.registry@.len() implies reg_keyf()(self.registry@[a])
                        != reg_keyf()(self.registry@[b]) by {
                        assert(reg_keyf()(old(self).registry@[a]) != reg_keyf()(
                            old(self).registry@[b],
                        ));
                    }
                }
                self.bus.emit(CentralEvent::DeviceDisconnected(address));
                Ok(())
            },
            None => Err(Error::DeviceNotFound),
        }
    }

    /// The bridge accepted a connect request for `address`: a disconnected
    /// entry becomes `Connecting`; any other state is left as it is, so
    /// repeated or late requests are harmless. Unknown addresses fail fast.
    pub fn report_connect_accepted(&mut self, address: BDAddr) -> (r: Result<(), Error>)
        requires
            old(self).wf(),
        ensures
            final(self).wf(),
            final(self).bus == old(self).bus,
            r is Ok <==> old(self).reg().dom().contains(address),
            r is Err ==> r == Err::<(), Error>(Error::DeviceNotFound) && final(self).registry
                == old(self).registry,
            old(self).reg().dom().contains(address) ==> {
                let entry = old(self).reg()[address];
                let next = PeripheralModel {
                    state: if entry.state is Disconnected {
                        crate::peripheral::ConnState::Connecting
                    } else {
                        entry.state
                    },
                    ..entry
                };
                final(self).reg() == old(self).reg().insert(address, next)
            },
    {
        proof {
            lemma_kv_view_contains(self.registry@, reg_keyf(), reg_valf(), address);
        }
        match self.find(address) {
            Some(i) => {
                proof {
                    lemma_kv_view_index(self.registry@, reg_keyf(), reg_valf(), i as int);
                }
                if matches!(self.registry[i].state, crate::peripheral::ConnState::Disconnected) {
                    let entry = &mut self.registry[i];
                    entry.on_connect_accepted();
                    proof {
                        self.lemma_entry_updated(*old(self), i as int);
                    }
                } else {
                    proof {
                        assert(self.reg() =~= old(self).reg().insert(
                            address,
                            old(self).reg()[address],
                        ));
                    }
                }
                Ok(())
            },
            None => Err(Error::DeviceNotFound),
        }
    }

    /// The native layer confirmed a connection for `address`: a connecting
    /// entry becomes `Connected`; any other state is left as it is.
    /// Unknown addresses fail fast.
    pub fn report_connect_confirmed(&mut self, address: BDAddr) -> (r: Result<(), Error>)
        requires
            old(self).wf(),
        ensures
            final(self).wf(),
            final(self).bus == old(self).bus,
            r is Ok <==> old(self).reg().dom().contains(address),
            r is Err ==> r == Err::<(), Error>(Error::DeviceNotFound) && final(self).registry
                == old(self).registry,
            old(self).reg().dom().contains(address) ==> {
                let entry = old(self).reg()[address];
                let next = PeripheralModel {
                    state: if entry.state is Connecting {
                        crate::peripheral::ConnState::Connected
                    } else {
                        entry.state
                    },
                    ..entry
                };
                final(self).reg() == old(self).reg().insert(address, next)
            },
    {
        proof {
            lemma_kv_view_contains(self.registry@, reg_keyf(), reg_valf(), address);
        }
        match self.find(address) {
            Some(i) => {
                proof {
                    lemma_kv_view_index(self.registry@, reg_keyf(), reg_valf(), i as int);
                }
                if matches!(self.registry[i].state, crate::peripheral::ConnState::Connecting) {
                    let entry = &mut self.registry[i];
                    entry.on_connect_confirmed();
                    proof {
                        self.lemma_entry_updated(*old(self), i as int);
                    }
                } else {
                    proof {
                        assert(self.reg() =~= old(self).reg().insert(
                            address,
                            old(self).reg()[address],
                        ));
                    }
                }
                Ok(())
            },
            None => Err(Error::DeviceNotFound),
        }
    }

    /// The native layer refused a connection for `address`: a connecting
    /// entry falls back to `Disconnected`; any other state is left as it
    /// is. Unknown addresses fail fast.
    pub fn report_connect_failed(&mut self, address: BDAddr) -> (r: Result<(), Error>)
        requires
            old(self).wf(),
        ensures
            final(self).wf(),
            final(self).bus == old(self).bus,
            r is Ok <==> old(self).reg().dom().contains(address),
            r is Err ==> r == Err::<(), Error>(Error::DeviceNotFound) && final(self).registry
                == old(self).registry,
            old(self).reg().dom().contains(address) ==> {
                let entry = old(self).reg()[address];
                let next = PeripheralModel {
                    state: if entry.state is Connecting {
                        crate::peripheral::ConnState::Disconnected
                    } else {
                        entry.state
                    },
                    ..entry
                };
                final(self).reg() == old(self).reg().insert(address, next)
            },
    {
        proof {
            lemma_kv_view_contains(self.registry@, reg_keyf(), reg_valf(), address);
        }
        match self.find(address) {
            Some(i) => {
                proof {
                    lemma_kv_view_index(self.registry@, reg_keyf(), reg_valf(), i as int);
                }
                if matches!(self.registry[i].state, crate::peripheral::ConnState::Connecting) {
                    let entry = &mut self.registry[i];
                    entry.on_connect_failed();
                    proof {
                        self.lemma_entry_updated(*old(self), i as int);
                    }
                } else {
                    proof {
                        assert(self.reg() =~= old(self).reg().insert(
                            address,
                            old(self).reg()[address],
                        ));
                    }
                }
                Ok(())
            },
            None => Err(Error::DeviceNotFound),
        }
    }

    /// The bridge accepted a disconnect request for `address`: a connected
    /// entry becomes `Disconnecting`; any other state is left as it is.
    /// Unknown addresses fail fast.
    pub fn report_disconnect_accepted(&mut self, address: BDAddr) -> (r: Result<(), Error>)
        requires
            old(self).wf(),
        ensures
            final(self).wf(),
            final(self).bus == old(self).bus,
            r is Ok <==> old(self).reg().dom().contains(address),
            r is Err ==> r == Err::<(), Error>(Error::DeviceNotFound) && final(self).registry
                == old(self).registry,
            old(self).reg().dom().contains(address) ==> {
                let entry = old(self).reg()[address];
                let next = PeripheralModel {
                    state: if entry.state is Connected {
                        crate::peripheral::ConnState::Disconnecting
                    } else {
                        entry.state
                    },
                    ..entry
                };
                final(self).reg() == old(self).reg().insert(address, next)
            },
    {
        proof {
            lemma_kv_view_contains(self.registry@, reg_keyf(), reg_valf(), address);
        }
        match self.find(address) {
            Some(i) => {
                proof {
                    lemma_kv_view_index(self.registry@, reg_keyf(), reg_valf(), i as int);
                }
                if matches!(self.registry[i].state, crate::peripheral::ConnState::Connected) {
                    let entry = &mut self.registry[i];
                    entry.on_disconnect_accepted();
                    proof {
                        self.lemma_entry_updated(*old(self), i as int);
                    }
                } else {
                    proof {
                        assert(self.reg() =~= old(self).reg().insert(
                            address,
                            old(self).reg()[address],
                        ));
                    }
                }
                Ok(())
            },
            None => Err(Error::DeviceNotFound),
        }
    }

    /// A completed characteristic discovery for `address`: while the entry
    /// is connected its cache becomes exactly the reported set, ordered and
    /// duplicate-free, and a copy of the cache is returned. A disconnected
    /// entry (the connection fell while discovering) yields `NotConnected`;
    /// unknown addresses fail fast.
    pub fn report_characteristics(&mut self, address: BDAddr, found: &Vec<Characteristic>) -> (r:
        Result<Vec<Characteristic>, Error>)
        requires
            old(self).wf(),
        ensures
            final(self).wf(),
            final(self).bus == old(self).bus,
            !old(self).reg().dom().contains(address) ==> r == Err::<Vec<Characteristic>, Error>(
                Error::DeviceNotFound,
            ) && final(self).registry == old(self).registry,
            old(self).reg().dom().contains(address) && !(old(self).reg()[address].state
                is Connected) ==> r == Err::<Vec<Characteristic>, Error>(Error::NotConnected)
                && final(self).registry == old(self).registry,
            old(self).reg().dom().contains(address) && old(self).reg()[address].state is Connected
                ==> {
                &&& r matches Ok(cache)
                &&& chars_sorted(cache@)
                &&& forall|c: Characteristic| cache@.contains(c) <==> found@.contains(c)
                &&& final(self).reg() == old(self).reg().insert(
                    address,
                    PeripheralModel { chars: cache@, ..old(self).reg()[address] },
                )
            },
    {
        proof {
            lemma_kv_view_contains(self.registry@, reg_keyf(), reg_valf(), address);
        }
        match self.find(address) {
            Some(i) => {
                proof {
                    lemma_kv_view_index(self.registry@, reg_keyf(), reg_valf(), i as int);
                }
                if matches!(self.registry[i].state, crate::peripheral::ConnState::Connected) {
                    let entry = &mut self.registry[i];
                    entry.on_characteristics_discovered(found);
                    proof {
                        self.lemma_entry_updated(*old(self), i as int);
                        lemma_kv_view_index(self.registry@, reg_keyf(), reg_valf(), i as int);
                    }
                    Ok(self.registry[i].characteristics())
                } else {
                    Err(Error::NotConnected)
                }
            },
            None => Err(Error::DeviceNotFound),
        }
    }

    /// The guard every characteristic operation (`read`, `write`,
    /// `subscribe`, `unsubscribe`) runs before touching the native layer;
    /// see `Peripheral::check_characteristic`. Unknown addresses fail fast.
    pub fn check_operation(&self, address: BDAddr, c: &Characteristic) -> (r: Result<(), Error>)
        requires
            self.wf(),
        ensures
            !self.reg().dom().contains(address) ==> r == Err::<(), Error>(Error::DeviceNotFound),
            self.reg().dom().contains(address) ==> {
                let entry = self.reg()[address];
                &&& (r is Ok <==> entry.state is Connected && entry.chars.contains(*c))
                &&& !(entry.state is Connected) ==> r == Err::<(), Error>(Error::NotConnected)
            },
    {
        proof {
            lemma_kv_view_contains(self.registry@, reg_keyf(), reg_valf(), address);
        }
        match self.find(address) {
            Some(i) => {
                proof {
                    lemma_kv_view_index(self.registry@, reg_keyf(), reg_valf(), i as int);
                }
                self.registry[i].check_characteristic(c)
            },
            None => Err(Error::DeviceNotFound),
        }
    }

    /// After the entry at `i` was replaced by one with the same address,
    /// the registry view is the old view with that address rebound; key
    /// uniqueness and entry well-formedness carry over.
    proof fn lemma_entry_updated(&self, prev: Adapter, i: int)
        requires
            prev.wf(),
            0 <= i < prev.registry@.len(),
            self.registry@ == prev.registry@.update(i, self.registry@[i]),
            self.registry@[i].addr == prev.registry@[i].addr,
            self.registry@[i].wf(),
            self.bus == prev.bus,
        ensures
            self.wf(),
            self.reg() == prev.reg().insert(prev.registry@[i].addr, self.registry@[i]@),
    {
        lemma_kv_view_update(prev.registry@, reg_keyf(), reg_valf(), i, self.registry@[i]);
        assert forall|a: int, b: int|
            0 <= a < b < self.registry@.len() implies reg_keyf()(self.registry@[a]) != reg_keyf()(
            self.registry@[b],
        ) by {
            assert(reg_keyf()(prev.registry@[a]) != reg_keyf()(prev.registry@[b]));
        }
    }

    /// The registry index holding `address`, if any.
    fn find(&self, address: BDAddr) -> (r: Option<usize>)
        ensures
            r matches Some(i) ==> i < self.registry@.len() && self.registry@[i as int].addr
                == address,
            r is None ==> forall|t: int|
                0 <= t < self.registry@.len() ==> (#[trigger] self.registry@[t]).addr != address,
    {
        let mut i: usize = 0;
        while i < self.registry.len()
            invariant
                i <= self.registry.len(),
                forall|t: int| 0 <= t < i ==> (#[trigger] self.registry@[t]).addr != address,
            decreases self.registry.len() - i,
        {
            if self.registry[i].addr == address {
                return Some(i);
            }
            i = i + 1;
        }
        None
    }
}

} // verus!
