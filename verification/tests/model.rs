//! Address parsing, GATT types, the property merge rule and the
//! per-peripheral connection state machine.

use btleplug::addr::{AddressKind, BDAddr};
use btleplug::gatt::{
    CharPropFlags, Characteristic, Uuid, PROP_INDICATE, PROP_NOTIFY, PROP_READ, PROP_WRITE,
};
use btleplug::peripheral::{
    classify_fault, write_type_code, BridgeFault, DisconnectPlan, Peripheral, WriteType,
};
use btleplug::props::{tx_power_from_raw, PeripheralProperties};
use btleplug::Error;

fn addr(bits: u64) -> BDAddr {
    BDAddr::new(bits, AddressKind::Public)
}

#[test]
fn parses_upper_and_lower_case_addresses() {
    let a = BDAddr::parse("AA:BB:CC:DD:EE:FF").unwrap();
    assert_eq!(a.bits, 0xAABBCCDDEEFF);
    assert_eq!(a.kind, AddressKind::Public);
    let b = BDAddr::parse("aa:bb:cc:dd:ee:ff").unwrap();
    assert_eq!(b, a);
    let c = BDAddr::parse("00:1A:7D:DA:71:13").unwrap();
    assert_eq!(c.bits, 0x001A7DDA7113);
}

#[test]
fn rejects_malformed_addresses() {
    assert!(BDAddr::parse("").is_none());
    assert!(BDAddr::parse("AA:BB:CC:DD:EE").is_none());
    assert!(BDAddr::parse("AA:BB:CC:DD:EE:FF:00").is_none());
    assert!(BDAddr::parse("AA:BB:CC:DD:EE:FG").is_none());
    assert!(BDAddr::parse("AA-BB-CC-DD-EE-FF").is_none());
    assert!(BDAddr::parse("AABBCCDDEEFF00000").is_none());
}

#[test]
fn flag_sets_keep_their_bits() {
    let f = CharPropFlags::from_bits_truncate(PROP_READ | PROP_NOTIFY);
    assert!(f.contains(PROP_READ));
    assert!(f.contains(PROP_NOTIFY));
    assert!(!f.contains(PROP_WRITE));
    assert!(!f.contains(PROP_INDICATE));
    assert_eq!(f.bits, 0x12);
}

#[test]
fn merge_keeps_absent_fields_and_takes_present_ones() {
    let a = addr(1);
    let mut cached = PeripheralProperties::new(a);
    let mut first = PeripheralProperties::new(a);
    first.local_name = Some("Tag".to_string());
    first.tx_power_level = Some(-40);
    first.add_service(Uuid::new(0x1809));
    first.insert_service_data(Uuid::new(0x1809), vec![0x17]);
    first.has_scan_response = true;
    cached.merge_from(&first);
    assert_eq!(cached.local_name.as_deref(), Some("Tag"));
    assert_eq!(cached.tx_power_level, Some(-40));
    assert!(cached.has_scan_response);
    assert_eq!(cached.discovery_count, 1);

    let mut second = PeripheralProperties::new(a);
    second.tx_power_level = Some(-60);
    second.add_service(Uuid::new(0x180F));
    second.add_service(Uuid::new(0x1809));
    cached.merge_from(&second);
    // Name was absent from the second report: retained.
    assert_eq!(cached.local_name.as_deref(), Some("Tag"));
    // Transmit power was present: replaced.
    assert_eq!(cached.tx_power_level, Some(-60));
    // Services accumulate without duplicates, first-seen order.
    assert_eq!(
        cached.services,
        vec![Uuid::new(0x1809), Uuid::new(0x180F)]
    );
    let entry = cached
        .service_data
        .iter()
        .find(|e| e.0 == Uuid::new(0x1809))
        .unwrap();
    assert_eq!(entry.1, vec![0x17]);
    assert_eq!(cached.discovery_count, 2);
}

#[test]
fn merge_replaces_payload_under_a_shared_key() {
    let a = addr(2);
    let mut cached = PeripheralProperties::new(a);
    let mut first = PeripheralProperties::new(a);
    first.insert_manufacturer_data(0x0059, vec![0x01]);
    cached.merge_from(&first);
    let mut second = PeripheralProperties::new(a);
    second.insert_manufacturer_data(0x0059, vec![0x02, 0x03]);
    cached.merge_from(&second);
    assert_eq!(cached.manufacturer_data.len(), 1);
    assert_eq!(cached.manufacturer_data[0].0, 0x0059);
    assert_eq!(cached.manufacturer_data[0].1, vec![0x02, 0x03]);
}

#[test]
fn counter_counts_every_report() {
    let a = addr(3);
    let mut cached = PeripheralProperties::new(a);
    let report = PeripheralProperties::new(a);
    for _ in 0..5 {
        cached.merge_from(&report);
    }
    assert_eq!(cached.discovery_count, 5);
}

#[test]
fn connect_lifecycle_follows_native_confirmation() {
    let mut p = Peripheral::new(addr(5));
    assert!(!p.is_connected());
    p.on_connect_accepted();
    assert!(!p.is_connected());
    p.on_connect_confirmed();
    assert!(p.is_connected());
    p.on_disconnect_accepted();
    assert!(!p.is_connected());
    p.on_disconnected();
    assert!(!p.is_connected());
}

#[test]
fn refused_connection_returns_to_disconnected() {
    let mut p = Peripheral::new(addr(6));
    p.on_connect_accepted();
    p.on_connect_failed();
    assert!(!p.is_connected());
    assert!(matches!(p.plan_disconnect(), DisconnectPlan::AlreadyDisconnected));
}

#[test]
fn disconnect_on_a_never_connected_peripheral_is_safe() {
    let p = Peripheral::new(addr(7));
    // No native call is needed; the request completes successfully.
    assert!(matches!(p.plan_disconnect(), DisconnectPlan::AlreadyDisconnected));
    let mut q = Peripheral::new(addr(8));
    q.on_connect_accepted();
    q.on_connect_confirmed();
    assert!(matches!(q.plan_disconnect(), DisconnectPlan::CallNative));
}

#[test]
fn discovery_fills_a_sorted_unique_cache_and_disconnect_clears_it() {
    let mut p = Peripheral::new(addr(9));
    p.on_connect_accepted();
    p.on_connect_confirmed();
    let c1 = Characteristic::new(Uuid::new(0x2A37), CharPropFlags::from_bits_truncate(PROP_NOTIFY));
    let c2 = Characteristic::new(Uuid::new(0x2A19), CharPropFlags::from_bits_truncate(PROP_READ));
    let found = vec![c1, c2, c1];
    p.on_characteristics_discovered(&found);
    assert_eq!(p.characteristics(), vec![c2, c1]);
    p.on_disconnected();
    assert!(p.characteristics().is_empty());
}

#[test]
fn characteristic_io_off_a_connection_is_not_connected() {
    let p = Peripheral::new(addr(10));
    let c = Characteristic::new(Uuid::new(0x2A37), CharPropFlags::from_bits_truncate(PROP_NOTIFY));
    // Empty cache, never connected: a specific kind, not a crash.
    assert_eq!(p.check_characteristic(&c), Err(Error::NotConnected));
}

#[test]
fn undiscovered_characteristic_io_names_its_cause() {
    let mut p = Peripheral::new(addr(11));
    p.on_connect_accepted();
    p.on_connect_confirmed();
    let c = Characteristic::new(Uuid::new(0x2A37), CharPropFlags::from_bits_truncate(PROP_NOTIFY));
    assert_eq!(
        p.check_characteristic(&c),
        Err(Error::NotSupported("characteristic not discovered".to_string()))
    );
    p.on_characteristics_discovered(&vec![c]);
    assert_eq!(p.check_characteristic(&c), Ok(()));
}

#[test]
fn faults_map_to_their_own_error_kinds() {
    assert_eq!(classify_fault(BridgeFault::NotConnected), Error::NotConnected);
    assert_eq!(
        classify_fault(BridgeFault::PermissionDenied),
        Error::PermissionDenied
    );
    assert_eq!(
        classify_fault(BridgeFault::Unclassified("java exception".to_string())),
        Error::Other("java exception".to_string())
    );
}

#[test]
fn write_kinds_marshal_to_native_codes() {
    assert_eq!(write_type_code(WriteType::WithResponse), 2);
    assert_eq!(write_type_code(WriteType::WithoutResponse), 1);
}

#[test]
fn properties_are_shared_state_reported_through_the_handle() {
    let mut p = Peripheral::new(addr(12));
    assert!(p.properties().is_none());
    let mut report = PeripheralProperties::new(addr(12));
    report.local_name = Some("Beacon".to_string());
    p.report_properties(&report);
    let snapshot = p.properties().unwrap();
    assert_eq!(snapshot.local_name.as_deref(), Some("Beacon"));
    assert_eq!(snapshot.address, addr(12));
}

#[test]
fn transmit_power_uses_the_platform_sentinel() {
    assert_eq!(tx_power_from_raw(i32::MIN), None);
    assert_eq!(tx_power_from_raw(-40), Some(-40));
    assert_eq!(tx_power_from_raw(0), Some(0));
}
