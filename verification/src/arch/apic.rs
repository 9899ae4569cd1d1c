//! Local APIC timer programming.

use vstd::prelude::*;

verus! {

/// Physical address of the local APIC's registers.
pub const LAPIC_PHYS_BASE: u64 = 0xfee00000;

/// Divide configuration register; 0x03 divides the bus clock by 16.
pub const DIVIDE_CONFIG: u64 = 0x3e0;

/// LVT timer register: vector 0x20 (32) in periodic mode (bit 17).
pub const LVT_TIMER: u64 = 0x320;

/// Initial count register; writing it starts the timer.
pub const INITIAL_COUNT: u64 = 0x380;

/// The register writes that start the periodic timer interrupt on vector 32, in
/// order, as (virtual address, value), with the APIC reached through the direct
/// map at `hhdm_offset`.
pub fn apic_timer_writes(hhdm_offset: u64) -> (w: Vec<(u64, u32)>)
    requires
        LAPIC_PHYS_BASE + hhdm_offset + DIVIDE_CONFIG <= u64::MAX,
    ensures
        w@.len() == 3,
        w@[0] == ((LAPIC_PHYS_BASE + hhdm_offset + DIVIDE_CONFIG) as u64, 0x03u32),
        w@[1] == ((LAPIC_PHYS_BASE + hhdm_offset + LVT_TIMER) as u64, 0x20020u32),
        w@[2] == ((LAPIC_PHYS_BASE + hhdm_offset + INITIAL_COUNT) as u64, 0x10000u32),
{
    let base = LAPIC_PHYS_BASE + hhdm_offset;
    let mut w: Vec<(u64, u32)> = Vec::new();
    w.push((base + DIVIDE_CONFIG, 0x03));
    w.push((base + LVT_TIMER, 0x20 | 0x20000));
    assert(0x20u32 | 0x20000u32 == 0x20020u32) by (bit_vector);
    w.push((base + INITIAL_COUNT, 0x10000));
    w
}

} // verus!
