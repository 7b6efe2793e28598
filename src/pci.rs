//! Decisions of PCI bring-up for the NIC: where a device's configuration
//! space lies, which devices are known NICs, and which configuration
//! registers to write to enable one, with MSI where the device offers it and
//! the legacy interrupt line otherwise.
//!
//! The configuration space is read by the caller and handed in as bytes; the
//! writes come back as a list for the caller to perform in order.
use vstd::prelude::*;
use crate::wire::{le16, le32, read_le16, read_le32};

verus! {

/// Base of the memory-mapped configuration space.
pub const ECAM: usize = 0x3000_0000;
/// Where the NIC's register window is placed.
pub const E1000_REGS: usize = 0x4000_0000;
/// Bytes of one function's configuration space.
pub const CONFIG_SPACE_LEN: usize = 256;

/// Command register.
pub const PCI_COMMAND: u16 = 0x04;
/// First base-address register.
pub const PCI_BAR0: u16 = 0x10;
/// Pointer to the first capability.
pub const PCI_CAP_PTR: u16 = 0x34;
/// Capability id of MSI.
pub const PCI_CAP_ID_MSI: u8 = 0x05;
/// MSI message control, in the upper half of the capability's first word.
pub const PCI_MSI_CTRL_CAP: u16 = 0x00;
/// MSI message address.
pub const PCI_MSI_ADDR: u16 = 0x04;
/// MSI message data where the address is 32-bit.
pub const PCI_MSI_DATA_32: u16 = 0x08;
/// MSI message data where the address is 64-bit.
pub const PCI_MSI_DATA_64: u16 = 0x0C;
/// Bytes an MSI capability can take.
pub const MSI_CAP_LEN: usize = 16;

/// Most capabilities a configuration space can hold: one per 4 bytes after
/// the 64-byte header. The walk stops after this many entries.
pub const CAP_WALK_LIMIT: usize = 48;

/// I/O space, memory space, bus mastering, special cycles, interrupt disable.
pub const COMMAND_ENABLE_MSI: u16 = 0x40f;
/// I/O space, memory space, bus mastering, special cycles.
pub const COMMAND_ENABLE_LEGACY: u16 = 0xf;
/// MSI message address of the local interrupt controller.
pub const MSI_ADDRESS: u32 = 0xfee0_0000;
/// MSI enable bit of the capability's first word.
pub const MSI_ENABLE: u32 = 0x1_0000;
/// 64-bit address bit of the capability's first word.
pub const MSI_64BIT: u32 = 0x80_0000;
/// Interrupt numbers are delivered offset by this much.
pub const IRQ_VECTOR_BASE: u32 = 32;

/// Intel's vendor id.
pub const VENDOR_INTEL: u16 = 0x8086;

/// Whether `(vendor, device)` is a NIC this stack drives: the 82540EM,
/// 82545EM and 82574L.
pub open spec fn spec_is_known_nic(vendor: u16, device: u16) -> bool {
    vendor == VENDOR_INTEL && (device == 0x100e || device == 0x100f || device == 0x10d3)
}

/// Whether `(vendor, device)` is a NIC this stack drives.
pub fn is_known_nic(vendor: u16, device: u16) -> (r: bool)
    ensures
        r == spec_is_known_nic(vendor, device),
{
    vendor == VENDOR_INTEL && (device == 0x100e || device == 0x100f || device == 0x10d3)
}

/// Where the configuration space of device `dev`, function 0 of bus 0,
/// is read from.
pub fn config_base(dev: usize) -> (r: usize)
    requires
        dev < 32,
    ensures
        r == ECAM + dev * 2048 * 4,
{
    ECAM + (dev * 2048) * 4
}

/// Whether the identifier word `id` read at the start of a configuration
/// space (vendor in the low half, device in the high half) is a known NIC.
pub fn nic_at(id: u32) -> (r: bool)
    ensures
        r == spec_is_known_nic((id % 0x1_0000) as u16, (id / 0x1_0000) as u16),
{
    is_known_nic((id % 0x1_0000) as u16, (id / 0x1_0000) as u16)
}

/// Where a function sits on the bus.
#[derive(Clone, Copy, Debug, PartialEq, Eq)]
pub struct Location {
    pub bus: u8,
    pub device: u8,
    pub function: u8,
}

/// A device found by enumeration, and the interrupt assigned to it.
#[derive(Clone, Copy, Debug, PartialEq, Eq)]
pub struct PciDeviceDescriptor {
    pub loc: Location,
    pub vendor_id: u16,
    pub device_id: u16,
    /// Base-address register 0.
    pub bar0: u64,
    /// The MSI interrupt number, or the legacy interrupt line.
    pub irq: u32,
}

/// The location of the first device of `devices` with ids `(vendor, product)`.
pub fn find_device(devices: &Vec<PciDeviceDescriptor>, vendor: u16, product: u16) -> (r: Option<
    Location,
>)
    ensures
        match r {
            Some(loc) => exists|i: int|
                0 <= i < devices@.len() && devices@[i].vendor_id == vendor && devices@[i].device_id
                    == product && devices@[i].loc == loc && forall|j: int|
                    0 <= j < i ==> !(devices@[j].vendor_id == vendor && devices@[j].device_id
                        == product),
            None => forall|j: int|
                0 <= j < devices@.len() ==> !(devices@[j].vendor_id == vendor
                    && devices@[j].device_id == product),
        },
{
    let mut i: usize = 0;
    while i < devices.len()
        invariant
            i <= devices@.len(),
            forall|j: int|
                0 <= j < i ==> !(devices@[j].vendor_id == vendor && devices@[j].device_id
                    == product),
        decreases devices.len() - i,
    {
        if devices[i].vendor_id == vendor && devices[i].device_id == product {
            return Some(devices[i].loc);
        }
        i = i + 1;
    }
    None
}

/// The register window of base-address register 0: its own address, or
/// `E1000_REGS` where the firmware left it unassigned.
pub fn bar_address(addr: u64) -> (r: u64)
    ensures
        r == if addr == 0 { E1000_REGS as u64 } else { addr },
{
    if addr == 0 {
        E1000_REGS as u64
    } else {
        addr
    }
}

/// Whether a capability entry at `ptr` can be read whole.
pub open spec fn cap_in_range(ptr: int) -> bool {
    0 < ptr && ptr + MSI_CAP_LEN <= CONFIG_SPACE_LEN
}

/// The capability offsets visited from `ptr`, at most `fuel` of them.
pub open spec fn cap_chain(cfg: Seq<u8>, ptr: int, fuel: nat) -> Seq<int>
    decreases fuel,
{
    if fuel == 0 || !cap_in_range(ptr) {
        Seq::empty()
    } else if cfg[ptr] == PCI_CAP_ID_MSI {
        seq![ptr]
    } else {
        seq![ptr] + cap_chain(cfg, cfg[ptr + 1] as int, (fuel - 1) as nat)
    }
}

/// The offset of the first MSI capability on the chain from `ptr`.
pub open spec fn cap_walk(cfg: Seq<u8>, ptr: int, fuel: nat) -> Option<int>
    decreases fuel,
{
    if fuel == 0 || !cap_in_range(ptr) {
        None
    } else if cfg[ptr] == PCI_CAP_ID_MSI {
        Some(ptr)
    } else {
        cap_walk(cfg, cfg[ptr + 1] as int, (fuel - 1) as nat)
    }
}

/// The outcome of walking a device's capability list.
pub struct CapScan {
    /// Offset of the MSI capability, if one was found.
    pub msi: Option<u8>,
    /// How many capability entries were read.
    pub visited: usize,
}

/// Walks the capability list of `cfg` looking for MSI. The walk reads at most
/// `CAP_WALK_LIMIT` entries, so a chain that loops back on itself ends.
pub fn walk_capabilities(cfg: &[u8]) -> (r: CapScan)
    requires
        cfg@.len() == CONFIG_SPACE_LEN,
    ensures
        match r.msi {
            Some(p) => cap_walk(cfg@, cfg@[PCI_CAP_PTR as int] as int, CAP_WALK_LIMIT as nat)
                == Some(p as int),
            None => cap_walk(cfg@, cfg@[PCI_CAP_PTR as int] as int, CAP_WALK_LIMIT as nat) is None,
        },
        r.visited == cap_chain(cfg@, cfg@[PCI_CAP_PTR as int] as int, CAP_WALK_LIMIT as nat).len(),
        r.visited <= CAP_WALK_LIMIT,
{
    let mut ptr: u8 = cfg[PCI_CAP_PTR as usize];
    let mut fuel: usize = CAP_WALK_LIMIT;
    let mut visited: usize = 0;
    proof {
        lemma_cap_chain_bounded(cfg@, ptr as int, fuel as nat);
    }
    while fuel > 0 && 0 < ptr && (ptr as usize) + MSI_CAP_LEN <= CONFIG_SPACE_LEN
        invariant
            cfg@.len() == CONFIG_SPACE_LEN,
            fuel <= CAP_WALK_LIMIT,
            visited + fuel == CAP_WALK_LIMIT,
            cap_walk(cfg@, ptr as int, fuel as nat) == cap_walk(
                cfg@,
                cfg@[PCI_CAP_PTR as int] as int,
                CAP_WALK_LIMIT as nat,
            ),
            visited + cap_chain(cfg@, ptr as int, fuel as nat).len() == cap_chain(
                cfg@,
                cfg@[PCI_CAP_PTR as int] as int,
                CAP_WALK_LIMIT as nat,
            ).len(),
        decreases fuel,
    {
        let at = ptr as usize;
        if cfg[at] == PCI_CAP_ID_MSI {
            return CapScan { msi: Some(ptr), visited: visited + 1 };
        }
        ptr = cfg[at + 1];
        fuel = fuel - 1;
        visited = visited + 1;
    }
    CapScan { msi: None, visited }
}

/// The chain read from any pointer holds at most `fuel` entries.
pub proof fn lemma_cap_chain_bounded(cfg: Seq<u8>, ptr: int, fuel: nat)
    ensures
        cap_chain(cfg, ptr, fuel).len() <= fuel,
    decreases fuel,
{
    if fuel > 0 && cap_in_range(ptr) && cfg[ptr] != PCI_CAP_ID_MSI {
        lemma_cap_chain_bounded(cfg, cfg[ptr + 1] as int, (fuel - 1) as nat);
    }
}

/// Whatever the configuration space holds, a loop in its capability list
/// included, the walk reads at most `CAP_WALK_LIMIT` entries.
pub proof fn lemma_cap_walk_bounded(cfg: Seq<u8>)
    requires
        cfg.len() == CONFIG_SPACE_LEN,
    ensures
        cap_chain(cfg, cfg[PCI_CAP_PTR as int] as int, CAP_WALK_LIMIT as nat).len()
            <= CAP_WALK_LIMIT,
{
    lemma_cap_chain_bounded(cfg, cfg[PCI_CAP_PTR as int] as int, CAP_WALK_LIMIT as nat);
}

/// A capability whose "next" pointer names itself, and which is not MSI, ends
/// the walk with no MSI found after exactly `CAP_WALK_LIMIT` reads.
pub proof fn lemma_cap_walk_self_loop(cfg: Seq<u8>, p: int, fuel: nat)
    requires
        cfg.len() == CONFIG_SPACE_LEN,
        cap_in_range(p),
        cfg[p] != PCI_CAP_ID_MSI,
        cfg[p + 1] as int == p,
    ensures
        cap_walk(cfg, p, fuel) is None,
        cap_chain(cfg, p, fuel).len() == fuel,
    decreases fuel,
{
    if fuel > 0 {
        lemma_cap_walk_self_loop(cfg, p, (fuel - 1) as nat);
    }
}

/// The walk finds MSI only at a capability that lies whole in the space.
pub proof fn lemma_cap_walk_in_range(cfg: Seq<u8>, ptr: int, fuel: nat)
    ensures
        cap_walk(cfg, ptr, fuel) is Some ==> cap_in_range(cap_walk(cfg, ptr, fuel)->Some_0),
    decreases fuel,
{
    if fuel > 0 && cap_in_range(ptr) && cfg[ptr] != PCI_CAP_ID_MSI {
        lemma_cap_walk_in_range(cfg, cfg[ptr + 1] as int, (fuel - 1) as nat);
    }
}

/// One write of a 32-bit configuration register.
#[derive(Clone, Copy, Debug, PartialEq, Eq)]
pub struct ConfigWrite {
    pub offset: u16,
    pub value: u32,
}

/// What enabling a device takes: the writes, in order, and the interrupt
/// number assigned to it through MSI, if any.
pub struct EnablePlan {
    pub writes: Vec<ConfigWrite>,
    pub irq: Option<u32>,
}

/// The writes that enable the device whose configuration space is `cfg`, and
/// its MSI interrupt number, where `last_irq` is the last number assigned.
pub open spec fn enable_plan(cfg: Seq<u8>, last_irq: u32) -> (Seq<ConfigWrite>, Option<u32>) {
    let cmd = le16(cfg, PCI_COMMAND as int);
    let first = ConfigWrite { offset: PCI_COMMAND, value: (cmd | COMMAND_ENABLE_MSI) as u32 };
    match cap_walk(cfg, cfg[PCI_CAP_PTR as int] as int, CAP_WALK_LIMIT as nat) {
        Some(p) => {
            let ctrl = le32(cfg, p);
            let irq = (last_irq + 1) as u32;
            let data = if ctrl & MSI_64BIT != 0 {
                PCI_MSI_DATA_64
            } else {
                PCI_MSI_DATA_32
            };
            (
                seq![
                    first,
                    ConfigWrite { offset: (p + PCI_MSI_ADDR) as u16, value: MSI_ADDRESS },
                    ConfigWrite { offset: (p + data) as u16, value: (irq + IRQ_VECTOR_BASE) as u32 },
                    ConfigWrite { offset: (p + PCI_MSI_CTRL_CAP) as u16, value: ctrl | MSI_ENABLE },
                ],
                Some(irq),
            )
        },
        None => (
            seq![
                first,
                ConfigWrite { offset: PCI_COMMAND, value: (cmd | COMMAND_ENABLE_LEGACY) as u32 },
            ],
            None,
        ),
    }
}

/// Plans the enabling of the device whose configuration space is `cfg`: turn
/// on its I/O, memory and bus mastering; then, where it has an MSI
/// capability, point that at the local interrupt controller with the next
/// interrupt number after `last_irq` and enable it, else fall back to the
/// legacy interrupt line.
pub fn enable(cfg: &[u8], last_irq: u32) -> (r: EnablePlan)
    requires
        cfg@.len() == CONFIG_SPACE_LEN,
        last_irq < u32::MAX - IRQ_VECTOR_BASE,
    ensures
        (r.writes@, r.irq) == enable_plan(cfg@, last_irq),
{
    let cmd = read_le16(cfg, PCI_COMMAND as usize);
    let mut writes: Vec<ConfigWrite> = Vec::new();
    writes.push(ConfigWrite { offset: PCI_COMMAND, value: (cmd | COMMAND_ENABLE_MSI) as u32 });
    let scan = walk_capabilities(cfg);
    proof {
        lemma_cap_walk_in_range(cfg@, cfg@[PCI_CAP_PTR as int] as int, CAP_WALK_LIMIT as nat);
    }
    match scan.msi {
        Some(p) => {
            let ctrl = read_le32(cfg, p as usize);
            let irq = last_irq + 1;
            let data = if ctrl & MSI_64BIT != 0 {
                PCI_MSI_DATA_64
            } else {
                PCI_MSI_DATA_32
            };
            writes.push(ConfigWrite { offset: p as u16 + PCI_MSI_ADDR, value: MSI_ADDRESS });
            writes.push(ConfigWrite { offset: p as u16 + data, value: irq + IRQ_VECTOR_BASE });
            writes.push(ConfigWrite { offset: p as u16 + PCI_MSI_CTRL_CAP, value: ctrl | MSI_ENABLE });
            assert(writes@ =~= enable_plan(cfg@, last_irq).0);
            EnablePlan { writes, irq: Some(irq) }
        },
        None => {
            writes.push(
                ConfigWrite { offset: PCI_COMMAND, value: (cmd | COMMAND_ENABLE_LEGACY) as u32 },
            );
            assert(writes@ =~= enable_plan(cfg@, last_irq).0);
            EnablePlan { writes, irq: None }
        },
    }
}

} // verus!
