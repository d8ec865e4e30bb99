use axdriver::drivers::{
    dispatch, probe_bus_devices, Claim, DeviceType, DriverProbe, FunctionKind, PciFunction,
};
use axdriver::pci::{
    bar_address, config_dword_offset, config_word, enable_command, Bar, BUS_MASTER_ENABLE,
    IO_ENABLE, MEMORY_ENABLE,
};

fn function(device: u8, vendor_id: u16, device_id: u16, kind: FunctionKind, command: u16) -> PciFunction {
    PciFunction { bus: 0, device, function: 0, vendor_id, device_id, kind, command }
}

#[test]
fn enable_command_sets_three_bits_and_keeps_others() {
    assert_eq!(enable_command(0), 0x7);
    assert_eq!(enable_command(0x0400), 0x0407);
    assert_eq!(enable_command(0xfff8), 0xffff);
    assert_eq!(enable_command(0x0002), 0x0007);
    assert_eq!(IO_ENABLE | MEMORY_ENABLE | BUS_MASTER_ENABLE, 0x7);
}

#[test]
fn config_word_takes_the_right_half() {
    assert_eq!(config_word(0x1234_5678, 0), 0x5678);
    assert_eq!(config_word(0x1234_5678, 1), 0x5678);
    assert_eq!(config_word(0x1234_5678, 2), 0x1234);
    assert_eq!(config_word(0x1234_5678, 6), 0x1234);
    assert_eq!(config_dword_offset(6), 4);
    assert_eq!(config_dword_offset(0x10), 0x10);
    assert_eq!(config_dword_offset(0x13), 0x10);
}

#[test]
fn bar_address_of_memory_bars() {
    let b32 = Bar::Memory32 { address: 0xfebc_0000, size: 0x2_0000, prefetchable: false };
    let b64 = Bar::Memory64 { address: 0x8_0000_0000, size: 0x1000, prefetchable: true };
    assert_eq!(bar_address(&b32), 0xfebc_0000);
    assert_eq!(bar_address(&b64), 0x8_0000_0000);
}

#[test]
fn e1000_probe_matches_vendor_and_device_list() {
    let d = DriverProbe::E1000;
    let ok1 = function(1, 0x8086, 0x10D3, FunctionKind::Endpoint, 0);
    let ok2 = function(1, 0x8086, 0x0DC8, FunctionKind::Endpoint, 0);
    let other_dev = function(1, 0x8086, 0x100E, FunctionKind::Endpoint, 0);
    let other_vendor = function(1, 0x1af4, 0x10D3, FunctionKind::Endpoint, 0);
    assert_eq!(d.probe_pcie(&ok1), Some(DeviceType::Net));
    assert_eq!(d.probe_pcie(&ok2), Some(DeviceType::Net));
    assert_eq!(d.probe_pcie(&other_dev), None);
    assert_eq!(d.probe_pcie(&other_vendor), None);
    assert_eq!(DriverProbe::RamDisk.probe_pcie(&ok1), None);
    assert_eq!(d.device_name(), "E1000 ");
}

#[test]
fn other_probes() {
    assert_eq!(DriverProbe::RamDisk.probe_global(), Some(DeviceType::Block));
    assert_eq!(DriverProbe::E1000.probe_global(), None);
    assert_eq!(DriverProbe::Ixgbe.probe_mmio(0x1000, 0x1000), None);
    let f = function(2, 0x8086, 0x10FB, FunctionKind::Endpoint, 0);
    let mem = Bar::Memory64 { address: 0xe000_0000, size: 0x8_0000, prefetchable: false };
    let io = Bar::Io { port: 0xe000 };
    assert_eq!(DriverProbe::Ixgbe.probe_pci(&f, &mem), Some(DeviceType::Net));
    assert_eq!(DriverProbe::Ixgbe.probe_pci(&f, &io), None);
    assert_eq!(DriverProbe::E1000.probe_pci(&f, &mem), None);
}

#[test]
fn dispatch_stops_at_first_claim() {
    let ep = function(3, 0x8086, 0x10D3, FunctionKind::Endpoint, 7);
    let reg = vec![DriverProbe::RamDisk, DriverProbe::E1000, DriverProbe::E1000];
    assert_eq!(dispatch(&reg, &ep), Some((1, DeviceType::Net)));
    let reg2 = vec![DriverProbe::RamDisk, DriverProbe::Ixgbe];
    assert_eq!(dispatch(&reg2, &ep), None);
    assert_eq!(dispatch(&Vec::new(), &ep), None);
}

#[test]
fn enumerate_one_matching_endpoint() {
    let registry = vec![DriverProbe::RamDisk, DriverProbe::Ixgbe, DriverProbe::E1000];
    let mut bus = vec![
        function(0, 0x8086, 0x29c0, FunctionKind::Bridge, 0x0000),
        function(1, 0x1234, 0x1111, FunctionKind::Endpoint, 0x0000),
        function(2, 0x8086, 0x10D3, FunctionKind::Endpoint, 0x0400),
    ];
    let claims = probe_bus_devices(&registry, &mut bus);
    assert_eq!(claims.len(), 1);
    assert_eq!(claims[0], Claim { function: 2, driver: 2, device_type: DeviceType::Net });
    assert_eq!(registry[claims[0].driver].device_name(), "E1000 ");
    assert_eq!(bus[2].command, 0x0407);
    assert_eq!(bus[1].command, 0x0007);
    assert_eq!(bus[0].command, 0x0000);
}

#[test]
fn enumeration_claims_each_endpoint_once_in_bus_order() {
    let registry = vec![DriverProbe::E1000, DriverProbe::E1000];
    let mut bus = vec![
        function(4, 0x8086, 0x0DC8, FunctionKind::Endpoint, 0),
        function(5, 0x8086, 0x10D3, FunctionKind::Bridge, 0),
        function(6, 0x8086, 0x10D3, FunctionKind::Endpoint, 0),
    ];
    let first = probe_bus_devices(&registry, &mut bus.clone());
    let second = probe_bus_devices(&registry, &mut bus);
    assert_eq!(first, second);
    assert_eq!(
        second,
        vec![
            Claim { function: 0, driver: 0, device_type: DeviceType::Net },
            Claim { function: 2, driver: 0, device_type: DeviceType::Net },
        ]
    );
}

#[test]
fn empty_bus_and_empty_registry() {
    let mut bus: Vec<PciFunction> = Vec::new();
    assert!(probe_bus_devices(&vec![DriverProbe::E1000], &mut bus).is_empty());
    let mut bus2 = vec![function(1, 0x8086, 0x10D3, FunctionKind::Endpoint, 0)];
    assert!(probe_bus_devices(&Vec::new(), &mut bus2).is_empty());
    assert_eq!(bus2[0].command, 0x7);
}
