//! Registry, event-bus and discovery-flow behaviour, exercised end to end
//! through the adapter core.

use btleplug::adapter::Adapter;
use btleplug::addr::{AddressKind, BDAddr};
use btleplug::bus::{CentralEvent, EventBus, RecvOutcome};
use btleplug::manager::Manager;
use btleplug::peripheral::Peripheral;
use btleplug::gatt::{CharPropFlags, Characteristic, Uuid, PROP_READ};
use btleplug::props::PeripheralProperties;
use btleplug::Error;

fn addr(bits: u64) -> BDAddr {
    BDAddr::new(bits, AddressKind::Public)
}

fn props_for(a: BDAddr) -> PeripheralProperties {
    PeripheralProperties::new(a)
}

#[test]
fn subscriber_receives_every_event_in_order() {
    let mut adapter = Adapter::new();
    let sub = adapter.event_stream();
    let a = addr(1);
    let b = addr(2);
    adapter.emit(CentralEvent::DeviceDiscovered(a));
    adapter.emit(CentralEvent::DeviceUpdated(a));
    adapter.emit(CentralEvent::DeviceLost(b));
    assert_eq!(
        adapter.next_event(sub),
        RecvOutcome::Event(CentralEvent::DeviceDiscovered(a))
    );
    assert_eq!(
        adapter.next_event(sub),
        RecvOutcome::Event(CentralEvent::DeviceUpdated(a))
    );
    assert_eq!(
        adapter.next_event(sub),
        RecvOutcome::Event(CentralEvent::DeviceLost(b))
    );
    assert_eq!(adapter.next_event(sub), RecvOutcome::Empty);
}

#[test]
fn events_before_subscription_are_not_delivered() {
    let mut adapter = Adapter::new();
    adapter.emit(CentralEvent::DeviceDiscovered(addr(9)));
    let sub = adapter.event_stream();
    assert_eq!(adapter.next_event(sub), RecvOutcome::Empty);
    adapter.emit(CentralEvent::DeviceUpdated(addr(9)));
    assert_eq!(
        adapter.next_event(sub),
        RecvOutcome::Event(CentralEvent::DeviceUpdated(addr(9)))
    );
}

#[test]
fn independent_subscribers_each_get_every_event() {
    let mut adapter = Adapter::new();
    let s1 = adapter.event_stream();
    let s2 = adapter.event_stream();
    adapter.emit(CentralEvent::DeviceDiscovered(addr(3)));
    let expected = RecvOutcome::Event(CentralEvent::DeviceDiscovered(addr(3)));
    assert_eq!(adapter.next_event(s1), expected);
    assert_eq!(adapter.next_event(s2), expected);
    assert_eq!(adapter.next_event(s1), RecvOutcome::Empty);
    assert_eq!(adapter.next_event(s2), RecvOutcome::Empty);
}

#[test]
fn slow_subscriber_is_told_what_it_missed() {
    let mut bus = EventBus::new(2);
    let sub = bus.subscribe();
    let a = addr(4);
    bus.emit(CentralEvent::DeviceDiscovered(a));
    bus.emit(CentralEvent::DeviceUpdated(a));
    bus.emit(CentralEvent::DeviceUpdated(a));
    bus.emit(CentralEvent::DeviceLost(a));
    // Four events behind with capacity two: two are gone.
    assert_eq!(bus.try_recv(sub), RecvOutcome::Lagged(2));
    assert_eq!(
        bus.try_recv(sub),
        RecvOutcome::Event(CentralEvent::DeviceUpdated(a))
    );
    assert_eq!(
        bus.try_recv(sub),
        RecvOutcome::Event(CentralEvent::DeviceLost(a))
    );
    assert_eq!(bus.try_recv(sub), RecvOutcome::Empty);
}

#[test]
fn add_peripheral_keeps_the_first_handle() {
    let mut adapter = Adapter::new();
    let a = addr(7);
    let first = Peripheral::new(a);
    let mut second = Peripheral::new(a);
    let mut report = props_for(a);
    report.local_name = Some("Other".to_string());
    second.report_properties(&report);
    adapter.add_peripheral(a, first);
    adapter.add_peripheral(a, second);
    let stored = adapter.peripheral(a).unwrap();
    // The registry still points at the first handle: nothing reported.
    assert!(stored.properties().is_none());
    assert_eq!(adapter.peripherals().len(), 1);
}

#[test]
fn lookup_misses_before_any_discovery_and_hits_after_add() {
    let mut adapter = Adapter::new();
    let a = addr(0xAABBCCDDEEFF);
    assert!(adapter.peripheral(a).is_none());
    adapter.add_peripheral(a, Peripheral::new(a));
    let got = adapter.peripheral(a).unwrap();
    assert_eq!(got.address(), a);
    let other = addr(0x112233445566);
    assert!(adapter.peripheral(other).is_none());
}

#[test]
fn discovery_scenario_registers_and_announces() {
    let mut adapter = Adapter::new();
    let sub = adapter.event_stream();
    let a = BDAddr::parse("AA:BB:CC:DD:EE:FF").unwrap();
    let mut report = props_for(a);
    report.local_name = Some("Sensor1".to_string());
    report.insert_manufacturer_data(0x004C, vec![0x02, 0x15]);
    let handle = adapter.report_properties(a, Some(report)).unwrap();
    assert_eq!(handle.address(), a);
    assert_eq!(adapter.peripherals().len(), 1);
    let stored = adapter.peripheral(a).unwrap();
    let props = stored.properties().unwrap();
    assert_eq!(props.local_name.as_deref(), Some("Sensor1"));
    assert_eq!(
        adapter.next_event(sub),
        RecvOutcome::Event(CentralEvent::DeviceDiscovered(a))
    );
    assert_eq!(adapter.next_event(sub), RecvOutcome::Empty);
}

#[test]
fn update_scenario_merges_and_announces() {
    let mut adapter = Adapter::new();
    let a = BDAddr::parse("AA:BB:CC:DD:EE:FF").unwrap();
    let mut first = props_for(a);
    first.local_name = Some("Sensor1".to_string());
    first.insert_manufacturer_data(0x004C, vec![0x02, 0x15]);
    adapter.report_properties(a, Some(first)).unwrap();
    let sub = adapter.event_stream();
    let mut second = props_for(a);
    second.insert_manufacturer_data(0x0059, vec![0x01]);
    adapter.report_properties(a, Some(second)).unwrap();
    let merged = adapter.peripheral(a).unwrap().properties().unwrap();
    // Both manufacturer keys present, the earlier name retained.
    let mut keys: Vec<u16> = merged.manufacturer_data.iter().map(|e| e.0).collect();
    keys.sort();
    assert_eq!(keys, vec![0x004C, 0x0059]);
    let apple = merged
        .manufacturer_data
        .iter()
        .find(|e| e.0 == 0x004C)
        .unwrap();
    assert_eq!(apple.1, vec![0x02, 0x15]);
    assert_eq!(merged.local_name.as_deref(), Some("Sensor1"));
    assert_eq!(merged.discovery_count, 2);
    assert_eq!(
        adapter.next_event(sub),
        RecvOutcome::Event(CentralEvent::DeviceUpdated(a))
    );
}

#[test]
fn lost_report_announces_and_fails_fast() {
    let mut adapter = Adapter::new();
    let a = addr(12);
    adapter.add_peripheral(a, Peripheral::new(a));
    let sub = adapter.event_stream();
    let r = adapter.report_properties(a, None);
    assert_eq!(r.unwrap_err(), Error::DeviceNotFound);
    assert_eq!(
        adapter.next_event(sub),
        RecvOutcome::Event(CentralEvent::DeviceLost(a))
    );
}

#[test]
fn unknown_address_with_nothing_to_report_creates_no_entry() {
    let mut adapter = Adapter::new();
    let sub = adapter.event_stream();
    let r = adapter.report_properties(addr(13), None);
    assert_eq!(r.unwrap_err(), Error::DeviceNotFound);
    assert!(adapter.peripheral(addr(13)).is_none());
    assert_eq!(adapter.next_event(sub), RecvOutcome::Empty);
}

#[test]
fn connection_loss_clears_cache_and_announces() {
    let mut adapter = Adapter::new();
    let a = addr(21);
    adapter.add_peripheral(a, Peripheral::new(a));
    let sub = adapter.event_stream();
    assert_eq!(adapter.report_disconnect(a), Ok(()));
    assert_eq!(
        adapter.next_event(sub),
        RecvOutcome::Event(CentralEvent::DeviceDisconnected(a))
    );
    let stored = adapter.peripheral(a).unwrap();
    assert!(!stored.is_connected());
    assert!(stored.characteristics().is_empty());
    assert_eq!(
        adapter.report_disconnect(addr(22)),
        Err(Error::DeviceNotFound)
    );
}

#[test]
fn manager_exposes_one_adapter() {
    let manager = Manager::new();
    let adapters = manager.adapters();
    assert_eq!(adapters.len(), 1);
    assert!(adapters[0].registry.is_empty());
}

#[test]
fn adapter_tracks_confirmed_connections() {
    let mut adapter = Adapter::new();
    let a = addr(31);
    adapter.add_peripheral(a, Peripheral::new(a));
    assert_eq!(adapter.report_connect_accepted(a), Ok(()));
    assert!(!adapter.peripheral(a).unwrap().is_connected());
    assert_eq!(adapter.report_connect_confirmed(a), Ok(()));
    assert!(adapter.peripheral(a).unwrap().is_connected());
    assert_eq!(adapter.report_disconnect_accepted(a), Ok(()));
    assert!(!adapter.peripheral(a).unwrap().is_connected());
    assert_eq!(adapter.report_disconnect(a), Ok(()));
    assert_eq!(
        adapter.report_connect_accepted(addr(32)),
        Err(Error::DeviceNotFound)
    );
}

#[test]
fn refused_connection_leaves_the_entry_disconnected() {
    let mut adapter = Adapter::new();
    let a = addr(33);
    adapter.add_peripheral(a, Peripheral::new(a));
    adapter.report_connect_accepted(a).unwrap();
    adapter.report_connect_failed(a).unwrap();
    assert!(!adapter.peripheral(a).unwrap().is_connected());
}

#[test]
fn discovery_results_are_cached_only_while_connected() {
    let mut adapter = Adapter::new();
    let a = addr(34);
    adapter.add_peripheral(a, Peripheral::new(a));
    let c = Characteristic::new(Uuid::new(0x2A00), CharPropFlags::from_bits_truncate(PROP_READ));
    let found = vec![c];
    assert_eq!(
        adapter.report_characteristics(a, &found),
        Err(Error::NotConnected)
    );
    assert_eq!(adapter.check_operation(a, &c), Err(Error::NotConnected));
    adapter.report_connect_accepted(a).unwrap();
    adapter.report_connect_confirmed(a).unwrap();
    assert_eq!(adapter.report_characteristics(a, &found), Ok(vec![c]));
    assert_eq!(adapter.check_operation(a, &c), Ok(()));
    assert_eq!(
        adapter.check_operation(addr(35), &c),
        Err(Error::DeviceNotFound)
    );
}
