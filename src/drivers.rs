//! The driver registry and the dispatch of enumerated PCI functions to it.
use vstd::prelude::*;
use crate::pci::{enable_command, enabled_command, Bar};

verus! {

/// Intel's PCI vendor identifier.
pub const INTEL_VENDOR_ID: u16 = 0x8086;

/// Device identifiers of the E1000E controllers this crate drives.
pub const E1000E_DEVICE_82574L: u16 = 0x10D3;

/// Second E1000E device identifier accepted by the E1000 probe.
pub const E1000E_DEVICE_ALT: u16 = 0x0DC8;

/// Device identifier of the Intel 82599 10 Gb controller.
pub const IXGBE_DEVICE_82599: u16 = 0x10FB;

/// Kind of device a driver produces.
#[derive(Clone, Copy, Debug, PartialEq, Eq, Structural)]
pub enum DeviceType {
    Block,
    Char,
    Net,
    Display,
}

/// Whether a PCI function ends the bus hierarchy or leads to another bus.
#[derive(Clone, Copy, Debug, PartialEq, Eq, Structural)]
pub enum FunctionKind {
    Endpoint,
    Bridge,
}

/// One enumerated PCI function.
#[derive(Clone, Copy, Debug, PartialEq, Eq, Structural)]
pub struct PciFunction {
    pub bus: u8,
    pub device: u8,
    pub function: u8,
    pub vendor_id: u16,
    pub device_id: u16,
    pub kind: FunctionKind,
    pub command: u16,
}

/// The drivers that can be registered, each with its probes. A probe that a
/// driver does not provide declines every device.
#[derive(Clone, Copy, Debug, PartialEq, Eq, Structural)]
pub enum DriverProbe {
    /// Intel E1000E gigabit controllers, found on PCI Express.
    E1000,
    /// Intel 82599 ten gigabit controllers, found on legacy PCI.
    Ixgbe,
    /// A RAM disk, present without any bus.
    RamDisk,
}

/// Whether `ep` is a function the E1000 driver claims.
pub open spec fn is_e1000e(ep: PciFunction) -> bool {
    ep.vendor_id == INTEL_VENDOR_ID && (ep.device_id == E1000E_DEVICE_82574L || ep.device_id
        == E1000E_DEVICE_ALT)
}

/// What the PCI Express probe of `d` produces for `ep`.
pub open spec fn probe_pcie_spec(d: DriverProbe, ep: PciFunction) -> Option<DeviceType> {
    match d {
        DriverProbe::E1000 => if is_e1000e(ep) {
            Some(DeviceType::Net)
        } else {
            None
        },
        _ => None,
    }
}

/// What the legacy PCI probe of `d` produces for `ep` whose first BAR is `bar0`.
pub open spec fn probe_pci_spec(d: DriverProbe, ep: PciFunction, bar0: Bar) -> Option<DeviceType> {
    match d {
        DriverProbe::Ixgbe => if ep.vendor_id == INTEL_VENDOR_ID && ep.device_id
            == IXGBE_DEVICE_82599 && !(bar0 is Io) {
            Some(DeviceType::Net)
        } else {
            None
        },
        _ => None,
    }
}

impl DriverProbe {
    /// Probe that needs no bus: only the RAM disk is present this way.
    pub fn probe_global(&self) -> (r: Option<DeviceType>)
        ensures
            r == (if *self == DriverProbe::RamDisk {
                Some(DeviceType::Block)
            } else {
                None
            }),
    {
        match self {
            DriverProbe::RamDisk => Some(DeviceType::Block),
            _ => None,
        }
    }

    /// Probe of a memory-mapped region: no registered driver is found this way.
    pub fn probe_mmio(&self, _mmio_base: usize, _mmio_size: usize) -> (r: Option<DeviceType>)
        ensures
            r is None,
    {
        None
    }

    /// Probe of a legacy PCI function whose first BAR is `bar0`. An I/O BAR
    /// cannot be mapped, so the device is declined.
    pub fn probe_pci(&self, ep: &PciFunction, bar0: &Bar) -> (r: Option<DeviceType>)
        ensures
            r == probe_pci_spec(*self, *ep, *bar0),
    {
        match self {
            DriverProbe::Ixgbe => {
                if ep.vendor_id == INTEL_VENDOR_ID && ep.device_id == IXGBE_DEVICE_82599 {
                    match bar0 {
                        Bar::Io { .. } => None,
                        _ => Some(DeviceType::Net),
                    }
                } else {
                    None
                }
            },
            _ => None,
        }
    }

    /// Probe of a PCI Express endpoint. Declining leaves the endpoint as it was.
    pub fn probe_pcie(&self, ep: &PciFunction) -> (r: Option<DeviceType>)
        ensures
            r == probe_pcie_spec(*self, *ep),
    {
        match self {
            DriverProbe::E1000 => {
                if ep.vendor_id == INTEL_VENDOR_ID && (ep.device_id == E1000E_DEVICE_82574L
                    || ep.device_id == E1000E_DEVICE_ALT) {
                    Some(DeviceType::Net)
                } else {
                    None
                }
            },
            _ => None,
        }
    }

    /// Name of the devices this driver produces.
    pub fn device_name(&self) -> (r: &'static str)
        ensures
            *self == DriverProbe::E1000 ==> r@ == "E1000 "@,
            *self == DriverProbe::Ixgbe ==> r@ == "ixgbe"@,
            *self == DriverProbe::RamDisk ==> r@ == "ramdisk"@,
    {
        match self {
            DriverProbe::E1000 => "E1000 ",
            DriverProbe::Ixgbe => "ixgbe",
            DriverProbe::RamDisk => "ramdisk",
        }
    }
}

/// A device claimed during enumeration: the function's position on the
/// bus, the position of the claiming driver in the registry, and the kind
/// of device it produced.
#[derive(Clone, Copy, Debug, PartialEq, Eq, Structural)]
pub struct Claim {
    pub function: usize,
    pub driver: usize,
    pub device_type: DeviceType,
}

/// The first driver at or after position `i` of `reg` whose PCI Express
/// probe claims `ep`, with what it produced.
pub open spec fn first_claim(reg: Seq<DriverProbe>, ep: PciFunction, i: int) -> Option<
    (usize, DeviceType),
>
    decreases reg.len() - i,
{
    if i < 0 || i >= reg.len() {
        None
    } else {
        match probe_pcie_spec(reg[i], ep) {
            Some(t) => Some((i as usize, t)),
            None => first_claim(reg, ep, i + 1),
        }
    }
}

/// Offers `ep` to each driver of `registry` in order and stops at the first
/// that claims it.
pub fn dispatch(registry: &Vec<DriverProbe>, ep: &PciFunction) -> (r: Option<(usize, DeviceType)>)
    ensures
        r == first_claim(registry@, *ep, 0),
{
    let mut i: usize = 0;
    while i < registry.len()
        invariant
            i <= registry@.len(),
            first_claim(registry@, *ep, 0) == first_claim(registry@, *ep, i as int),
        decreases registry@.len() - i,
    {
        match registry[i].probe_pcie(ep) {
            Some(t) => {
                return Some((i, t));
            },
            None => {},
        }
        i = i + 1;
    }
    None
}

/// A function as drivers see it: endpoints have I/O, memory and bus-master
/// access enabled before they are offered; bridges are left as they are.
pub open spec fn prepared(f: PciFunction) -> PciFunction {
    if f.kind == FunctionKind::Endpoint {
        PciFunction { command: enabled_command(f.command), ..f }
    } else {
        f
    }
}

/// The claims that enumeration makes over the first `n` functions of `bus`.
pub open spec fn claims_upto(reg: Seq<DriverProbe>, bus: Seq<PciFunction>, n: int) -> Seq<Claim>
    decreases n,
{
    if n <= 0 {
        Seq::empty()
    } else {
        let prev = claims_upto(reg, bus, n - 1);
        let f = bus[n - 1];
        if f.kind == FunctionKind::Endpoint {
            match first_claim(reg, prepared(f), 0) {
                Some((d, t)) => prev.push(Claim { function: (n - 1) as usize, driver: d, device_type: t }),
                None => prev,
            }
        } else {
            prev
        }
    }
}

/// Walks the enumerated functions of `bus` in order: each endpoint gets
/// I/O, memory and bus-master access enabled and is offered to the
/// registry; bridges are passed over. Returns the claims in bus order.
pub fn probe_bus_devices(registry: &Vec<DriverProbe>, bus: &mut Vec<PciFunction>) -> (r: Vec<Claim>)
    ensures
        final(bus)@.len() == old(bus)@.len(),
        forall|i: int| 0 <= i < old(bus)@.len() ==> #[trigger] final(bus)@[i] == prepared(old(bus)@[i]),
        r@ == claims_upto(registry@, old(bus)@, old(bus)@.len() as int),
{
    let mut claims: Vec<Claim> = Vec::new();
    let mut i: usize = 0;
    while i < bus.len()
        invariant
            i <= bus@.len(),
            bus@.len() == old(bus)@.len(),
            forall|k: int| 0 <= k < i ==> #[trigger] bus@[k] == prepared(old(bus)@[k]),
            forall|k: int| i <= k < bus@.len() ==> #[trigger] bus@[k] == old(bus)@[k],
            claims@ == claims_upto(registry@, old(bus)@, i as int),
        decreases bus@.len() - i,
    {
        let f = bus[i];
        if f.kind == FunctionKind::Endpoint {
            let ep = PciFunction { command: enable_command(f.command), ..f };
            bus.set(i, ep);
            match dispatch(registry, &ep) {
                Some((d, t)) => {
                    claims.push(Claim { function: i, driver: d, device_type: t });
                },
                None => {},
            }
        }
        i = i + 1;
    }
    claims
}

/// Each endpoint is claimed by at most one driver: the claims of an
/// enumeration name strictly increasing bus positions, each an endpoint,
/// and each names the first driver in registry order whose probe accepts
/// it. Being a function of the registry and the bus alone, the claims and
/// their order are the same on every run.
pub proof fn lemma_claims_unique_ordered(reg: Seq<DriverProbe>, bus: Seq<PciFunction>, n: int)
    requires
        0 <= n <= bus.len() <= usize::MAX,
    ensures
        forall|i: int, j: int|
            0 <= i < j < claims_upto(reg, bus, n).len() ==> claims_upto(reg, bus, n)[i].function
                < claims_upto(reg, bus, n)[j].function,
        forall|i: int|
            0 <= i < claims_upto(reg, bus, n).len() ==> {
                let c = #[trigger] claims_upto(reg, bus, n)[i];
                &&& c.function < n
                &&& bus[c.function as int].kind == FunctionKind::Endpoint
                &&& first_claim(reg, prepared(bus[c.function as int]), 0) == Some(
                    (c.driver, c.device_type),
                )
            },
    decreases n,
{
    if n > 0 {
        lemma_claims_unique_ordered(reg, bus, n - 1);
        let prev = claims_upto(reg, bus, n - 1);
        let cur = claims_upto(reg, bus, n);
        assert forall|i: int| 0 <= i < prev.len() implies cur[i] == prev[i] && (#[trigger] prev[i]).function < n - 1 by {
        }
        assert(cur.len() == prev.len() || cur.len() == prev.len() + 1);
        if cur.len() == prev.len() + 1 {
            assert(cur =~= prev.push(cur[prev.len() as int]));
            assert(cur[prev.len() as int].function == n - 1);
        } else {
            assert(cur =~= prev);
        }
    }
}

/// A bus whose only endpoint is at position `j` yields exactly one claim:
/// that endpoint, by the first driver in registry order whose probe
/// accepts it, with the device that probe produced.
pub proof fn lemma_single_endpoint_claimed(
    reg: Seq<DriverProbe>,
    bus: Seq<PciFunction>,
    j: int,
    d: usize,
    t: DeviceType,
)
    requires
        bus.len() <= usize::MAX,
        0 <= j < bus.len(),
        bus[j].kind == FunctionKind::Endpoint,
        forall|k: int| 0 <= k < bus.len() && k != j ==> #[trigger] bus[k].kind == FunctionKind::Bridge,
        first_claim(reg, prepared(bus[j]), 0) == Some((d, t)),
    ensures
        claims_upto(reg, bus, bus.len() as int) == seq![Claim { function: j as usize, driver: d, device_type: t }],
{
    lemma_single_endpoint_prefix(reg, bus, j, d, t, bus.len() as int);
}

proof fn lemma_single_endpoint_prefix(
    reg: Seq<DriverProbe>,
    bus: Seq<PciFunction>,
    j: int,
    d: usize,
    t: DeviceType,
    n: int,
)
    requires
        bus.len() <= usize::MAX,
        0 <= j < bus.len(),
        0 <= n <= bus.len(),
        bus[j].kind == FunctionKind::Endpoint,
        forall|k: int| 0 <= k < bus.len() && k != j ==> #[trigger] bus[k].kind == FunctionKind::Bridge,
        first_claim(reg, prepared(bus[j]), 0) == Some((d, t)),
    ensures
        n <= j ==> claims_upto(reg, bus, n) == Seq::<Claim>::empty(),
        n > j ==> claims_upto(reg, bus, n) == seq![Claim { function: j as usize, driver: d, device_type: t }],
    decreases n,
{
    if n > 0 {
        lemma_single_endpoint_prefix(reg, bus, j, d, t, n - 1);
        if n - 1 == j {
            assert(claims_upto(reg, bus, n) =~= seq![Claim { function: j as usize, driver: d, device_type: t }]);
        } else {
            assert(bus[n - 1].kind == FunctionKind::Bridge);
        }
    }
}

} // verus!
