//! PCI configuration space addressing (mechanism #1, ports 0xCF8/0xCFC).

use vstd::prelude::*;

verus! {

/// The CONFIG_ADDRESS value selecting dword `offset` of function `func` of device
/// `slot` on `bus`: enable bit 31, bus in bits 16-23, device in bits 11-15,
/// function in bits 8-10, dword-aligned register in bits 2-7.
pub open spec fn config_address_spec(bus: u8, slot: u8, func: u8, offset: u8) -> u32 {
    (1u32 << 31u32) | ((bus as u32) << 16u32) | ((slot as u32) << 11u32) | ((func as u32) << 8u32)
        | ((offset as u32) & 0xFC)
}

/// The CONFIG_ADDRESS value for a configuration-space access.
pub fn pci_config_address(bus: u8, slot: u8, func: u8, offset: u8) -> (a: u32)
    ensures
        a == config_address_spec(bus, slot, func, offset),
{
    (1u32 << 31) | ((bus as u32) << 16) | ((slot as u32) << 11) | ((func as u32) << 8) | ((offset as u32)
        & 0xFC)
}

/// Buses, devices per bus and functions per device that a scan visits.
pub const BUSES: u32 = 256;

pub const DEVICES: u32 = 32;

pub const FUNCTIONS: u32 = 8;

/// Position of a function in scan order: bus by bus, device by device.
pub open spec fn scan_index(bus: u32, slot: u32, func: u32) -> int {
    (bus * DEVICES + slot) * FUNCTIONS + func
}

/// The function that a bus scan visits after function `func` of device `slot`
/// on `bus`, or `None` after the last one.
pub fn next_function(bus: u32, slot: u32, func: u32) -> (next: Option<(u32, u32, u32)>)
    requires
        bus < BUSES,
        slot < DEVICES,
        func < FUNCTIONS,
    ensures
        match next {
            None => bus == BUSES - 1 && slot == DEVICES - 1 && func == FUNCTIONS - 1,
            Some((b, s, f)) => b < BUSES && s < DEVICES && f < FUNCTIONS && scan_index(b, s, f)
                == scan_index(bus, slot, func) + 1,
        },
{
    if func + 1 < FUNCTIONS {
        Some((bus, slot, func + 1))
    } else if slot + 1 < DEVICES {
        Some((bus, slot + 1, 0))
    } else if bus + 1 < BUSES {
        Some((bus + 1, 0, 0))
    } else {
        None
    }
}

/// The address selects what was asked for: enable bit set, the bus, device (below
/// 32), function (below 8) and dword-aligned register can be read back from it.
pub proof fn lemma_config_address_fields(bus: u8, slot: u8, func: u8, offset: u8)
    requires
        slot < 32,
        func < 8,
    ensures
        ({
            let a = config_address_spec(bus, slot, func, offset);
            &&& a >> 31u32 == 1
            &&& (a >> 16u32) & 0xFF == bus as u32
            &&& (a >> 11u32) & 0x1F == slot as u32
            &&& (a >> 8u32) & 0x7 == func as u32
            &&& a & 0xFF == (offset as u32) & 0xFC
            &&& a & 0x3 == 0
        }),
{
    let b = bus as u32;
    let s = slot as u32;
    let f = func as u32;
    let o = offset as u32;
    assert({
        let a = (1u32 << 31u32) | (b << 16u32) | (s << 11u32) | (f << 8u32) | (o & 0xFC);
        &&& a >> 31u32 == 1
        &&& (a >> 16u32) & 0xFF == b
        &&& (a >> 11u32) & 0x1F == s
        &&& (a >> 8u32) & 0x7 == f
        &&& a & 0xFF == o & 0xFC
        &&& a & 0x3 == 0
    }) by (bit_vector)
        requires
            b < 256,
            s < 32,
            f < 8,
            o < 256,
    ;
}

} // verus!
