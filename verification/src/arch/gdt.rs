//! Global descriptor table entries and the pointer handed to `lgdt`.

use vstd::prelude::*;

verus! {

/// One 8-byte segment descriptor, field by field in memory order.
pub struct GdtEntry {
    limit_low: u16,
    base_low: u16,
    base_mid: u8,
    access: u8,
    limit_high_flags: u8,
    base_high: u8,
}

impl GdtEntry {
    /// The 64-bit descriptor this entry occupies in the table, read little-endian.
    pub closed spec fn descriptor(self) -> u64 {
        (self.limit_low as u64) | ((self.base_low as u64) << 16u64) | ((self.base_mid as u64)
            << 32u64) | ((self.access as u64) << 40u64) | ((self.limit_high_flags as u64) << 48u64)
            | ((self.base_high as u64) << 56u64)
    }

    pub closed spec fn access_spec(self) -> u8 {
        self.access
    }

    pub closed spec fn flags_spec(self) -> u8 {
        self.limit_high_flags
    }

    /// A flat descriptor: limit 0xFFFF, base 0, the given access byte and
    /// limit-high/flags byte.
    pub fn new(access: u8, flags: u8) -> (e: Self)
        ensures
            e.access_spec() == access,
            e.flags_spec() == flags,
            e.descriptor() == 0xFFFFu64 | ((access as u64) << 40u64) | ((flags as u64) << 48u64),
    {
        let e = GdtEntry {
            limit_low: 0xFFFF,
            base_low: 0,
            base_mid: 0,
            access,
            limit_high_flags: flags,
            base_high: 0,
        };
        proof {
            let a = access as u64;
            let f = flags as u64;
            assert((0xFFFFu64 | (0u64 << 16u64) | (0u64 << 32u64) | (a << 40u64) | (f << 48u64)
                | (0u64 << 56u64)) == (0xFFFFu64 | (a << 40u64) | (f << 48u64))) by (bit_vector);
        }
        e
    }
}


impl GdtEntry {
    /// The descriptor as the CPU reads it from the table.
    pub fn to_bits(&self) -> (d: u64)
        ensures
            d == self.descriptor(),
    {
        (self.limit_low as u64) | ((self.base_low as u64) << 16u64) | ((self.base_mid as u64) << 32u64)
            | ((self.access as u64) << 40u64) | ((self.limit_high_flags as u64) << 48u64) | ((
        self.base_high as u64) << 56u64)
    }
}

/// The null descriptor that must open every GDT.
pub const NULL_DESCRIPTOR: u64 = 0x0000000000000000;

/// Flat 64-bit kernel code segment (selector 0x08).
pub const KERNEL_CODE_DESCRIPTOR: u64 = 0x00af9a000000ffff;

/// Flat kernel data segment (selector 0x10).
pub const KERNEL_DATA_DESCRIPTOR: u64 = 0x00cf92000000ffff;

/// Access byte of the kernel code segment.
pub const KERNEL_CODE_ACCESS: u8 = 0x9A;

/// Access byte of the kernel data segment.
pub const KERNEL_DATA_ACCESS: u8 = 0x92;

/// Flags byte of the kernel code segment (long mode).
pub const KERNEL_CODE_FLAGS: u8 = 0xAF;

/// Flags byte of the kernel data segment.
pub const KERNEL_DATA_FLAGS: u8 = 0xCF;

/// Number of descriptors in the kernel's GDT.
pub const GDT_ENTRIES: u16 = 3;

/// The operand of `lgdt`: the table's size minus one and its address.
pub struct GdtPointer {
    limit: u16,
    base: u64,
}

impl GdtPointer {
    pub closed spec fn limit_spec(&self) -> u16 {
        self.limit
    }

    pub closed spec fn base_spec(&self) -> u64 {
        self.base
    }

    pub fn limit(&self) -> (l: u16)
        ensures
            l == self.limit_spec(),
    {
        self.limit
    }

    pub fn base(&self) -> (b: u64)
        ensures
            b == self.base_spec(),
    {
        self.base
    }
}

/// `virt` moved by `offset`, the distance from the kernel's virtual to its
/// physical load address (two's-complement arithmetic on the address bits).
pub open spec fn to_phys_spec(virt: u64, offset: i64) -> u64 {
    ((virt as i64) + offset) as u64
}

/// The physical address of kernel address `virt`, given `offset` = physical
/// base minus virtual base.
pub fn to_phys(virt: u64, offset: i64) -> (p: u64)
    requires
        i64::MIN <= (virt as i64) + offset <= i64::MAX,
    ensures
        p == to_phys_spec(virt, offset),
{
    let v = virt as i64;
    (v + offset) as u64
}

/// The difference between the kernel's physical and virtual load addresses,
/// each read as a signed number.
pub fn load_offset(physical_base: u64, virtual_base: u64) -> (o: i64)
    requires
        i64::MIN <= (physical_base as i64) - (virtual_base as i64) <= i64::MAX,
    ensures
        o == (physical_base as i64) - (virtual_base as i64),
{
    let p = physical_base as i64;
    let v = virtual_base as i64;
    p - v
}

/// The `lgdt` operand for the three-entry GDT at kernel address `gdt_virt`.
pub fn gdt_pointer(gdt_virt: u64, offset: i64) -> (p: GdtPointer)
    requires
        i64::MIN <= (gdt_virt as i64) + offset <= i64::MAX,
    ensures
        p.limit_spec() == 8 * GDT_ENTRIES - 1,
        p.base_spec() == to_phys_spec(gdt_virt, offset),
{
    GdtPointer { limit: 8 * GDT_ENTRIES - 1, base: to_phys(gdt_virt, offset) }
}

/// With the offset between the kernel's load addresses, its virtual base is
/// translated to its physical base.
pub proof fn lemma_offset_maps_base(physical_base: u64, virtual_base: u64)
    requires
        i64::MIN <= (physical_base as i64) - (virtual_base as i64) <= i64::MAX,
    ensures
        i64::MIN <= (virtual_base as i64) + ((physical_base as i64) - (virtual_base as i64)) <= i64::MAX,
        to_phys_spec(virtual_base, ((physical_base as i64) - (virtual_base as i64)) as i64) == physical_base,
{
    let p = physical_base as i64;
    let v = virtual_base as i64;
    assert(((v + (p - v)) as i64) as u64 == physical_base) by (bit_vector)
        requires
            p == physical_base as i64,
            v == virtual_base as i64,
            i64::MIN <= p - v <= i64::MAX,
    ;
}

/// The descriptor built for given access and flags bytes carries them in bits
/// 40-47 and 48-55, with limit 0xFFFF and base 0.
pub proof fn lemma_descriptor_fields(access: u8, flags: u8)
    ensures
        ({
            let d = 0xFFFFu64 | ((access as u64) << 40u64) | ((flags as u64) << 48u64);
            &&& d & 0xFFFF == 0xFFFF
            &&& (d >> 40u64) & 0xFF == access as u64
            &&& (d >> 48u64) & 0xFF == flags as u64
            &&& (d >> 16u64) & 0xFF_FFFF == 0
            &&& d >> 56u64 == 0
        }),
{
    let a = access as u64;
    let f = flags as u64;
    assert(a < 256 && f < 256);
    assert({
        let d = 0xFFFFu64 | (a << 40u64) | (f << 48u64);
        &&& d & 0xFFFF == 0xFFFF
        &&& (d >> 40u64) & 0xFF == a
        &&& (d >> 48u64) & 0xFF == f
        &&& (d >> 16u64) & 0xFF_FFFF == 0
        &&& d >> 56u64 == 0
    }) by (bit_vector)
        requires
            a < 256,
            f < 256,
    ;
}
} // verus!
