//! Interrupt descriptor table entries and the pointer handed to `lidt`.

use vstd::prelude::*;
use crate::arch::gdt::{to_phys, to_phys_spec};

verus! {

/// Kernel code segment selector used by every gate.
pub const KERNEL_CODE_SELECTOR: u16 = 0x08;

/// Present, ring 0, 64-bit interrupt gate.
pub const INTERRUPT_GATE: u8 = 0x8E;

/// Number of gates in the IDT.
pub const IDT_ENTRIES: usize = 256;

/// Vector of the divide-by-zero exception.
pub const DIVIDE_BY_ZERO_VECTOR: usize = 0;

/// Vector of the page-fault exception.
pub const PAGE_FAULT_VECTOR: usize = 14;

/// Vector of the APIC timer interrupt.
pub const TIMER_VECTOR: usize = 32;

/// One 16-byte gate descriptor, field by field in memory order.
#[derive(Copy, Clone)]
pub struct IdtEntry {
    offset_low: u16,
    selector: u16,
    ist: u8,
    type_attr: u8,
    offset_mid: u16,
    offset_high: u32,
    reserved: u32,
}

impl IdtEntry {
    /// Address of the handler this entry jumps to.
    pub closed spec fn handler(self) -> u64 {
        (self.offset_low as u64) | ((self.offset_mid as u64) << 16u64) | ((self.offset_high as u64)
            << 32u64)
    }

    pub closed spec fn selector_spec(self) -> u16 {
        self.selector
    }

    pub closed spec fn type_attr_spec(self) -> u8 {
        self.type_attr
    }

    pub closed spec fn ist_spec(self) -> u8 {
        self.ist
    }

    pub closed spec fn reserved_spec(self) -> u32 {
        self.reserved
    }

    /// This entry as the CPU reads it from the table, little-endian.
    pub closed spec fn descriptor(self) -> u128 {
        (self.offset_low as u128) | ((self.selector as u128) << 16u128) | ((self.ist as u128) << 32u128)
            | ((self.type_attr as u128) << 40u128) | ((self.offset_mid as u128) << 48u128) | ((
        self.offset_high as u128) << 64u128) | ((self.reserved as u128) << 96u128)
    }

    /// An empty (not present) gate: every field zero.
    pub fn new() -> (e: Self)
        ensures
            e.handler() == 0,
            e.selector_spec() == 0,
            e.type_attr_spec() == 0,
            e.ist_spec() == 0,
            e.reserved_spec() == 0,
            e.descriptor() == 0,
            e == IdtEntry::new_spec(),
    {
        let e = IdtEntry {
            offset_low: 0,
            selector: 0,
            ist: 0,
            type_attr: 0,
            offset_mid: 0,
            offset_high: 0,
            reserved: 0,
        };
        proof {
            assert((0u64 | (0u64 << 16u64) | (0u64 << 32u64)) == 0u64) by (bit_vector);
            assert((0u128 | (0u128 << 16u128) | (0u128 << 32u128) | (0u128 << 40u128) | (0u128
                << 48u128) | (0u128 << 64u128) | (0u128 << 96u128)) == 0u128) by (bit_vector);
        }
        e
    }

    /// Turns this entry into a present ring-0 interrupt gate to `handler_addr` in the
    /// kernel code segment; the stack-table index and reserved bits are kept.
    pub fn set_handler(&mut self, handler_addr: u64)
        ensures
            final(self).handler() == handler_addr,
            final(self).selector_spec() == KERNEL_CODE_SELECTOR,
            final(self).type_attr_spec() == INTERRUPT_GATE,
            final(self).ist_spec() == old(self).ist_spec(),
            final(self).reserved_spec() == old(self).reserved_spec(),
    {
        self.selector = KERNEL_CODE_SELECTOR;
        self.type_attr = INTERRUPT_GATE;
        self.offset_low = handler_addr as u16;
        self.offset_mid = (handler_addr >> 16) as u16;
        self.offset_high = (handler_addr >> 32) as u32;
        proof {
            let a = handler_addr;
            assert(((a as u16) as u64) | ((((a >> 16u64) as u16) as u64) << 16u64) | ((((a >> 32u64) as u32)
                as u64) << 32u64) == a) by (bit_vector);
        }
    }

    /// This entry as the CPU reads it from the table.
    pub fn to_bits(&self) -> (d: u128)
        ensures
            d == self.descriptor(),
    {
        (self.offset_low as u128) | ((self.selector as u128) << 16u128) | ((self.ist as u128) << 32u128)
            | ((self.type_attr as u128) << 40u128) | ((self.offset_mid as u128) << 48u128) | ((
        self.offset_high as u128) << 64u128) | ((self.reserved as u128) << 96u128)
    }
}

/// The registers the CPU pushes before calling an interrupt handler.
pub struct InterruptStackFrame {
    pub instruction_pointer: u64,
    pub code_segment: u64,
    pub cpu_flags: u64,
    pub stack_pointer: u64,
    pub stack_segment: u64,
}

/// The operand of `lidt`: the table's size minus one and its address.
pub struct Idtr {
    pub limit: u16,
    pub base: u64,
}

/// Every gate of the kernel's IDT uses no interrupt stack (bits 32-39 zero) and
/// has its reserved word (bits 96-127) zero.
pub proof fn lemma_idt_gates_use_no_stack_table(t: Seq<IdtEntry>, v: int)
    requires
        t.len() == IDT_ENTRIES,
        forall|g: int| 0 <= g < IDT_ENTRIES ==> #[trigger] t[g].ist_spec() == 0 && t[g].reserved_spec() == 0,
        0 <= v < IDT_ENTRIES,
    ensures
        (t[v].descriptor() >> 32u128) & 0xFF == 0,
        t[v].descriptor() >> 96u128 == 0,
{
    lemma_descriptor_holds_handler(t[v]);
}

/// The kernel's IDT: gates to the divide-by-zero, page-fault and timer handlers
/// at their vectors, every other gate empty.
pub fn build_idt(divide_by_zero: u64, page_fault: u64, timer: u64) -> (t: Vec<IdtEntry>)
    ensures
        t@.len() == IDT_ENTRIES,
        t@[DIVIDE_BY_ZERO_VECTOR as int].handler() == divide_by_zero,
        t@[PAGE_FAULT_VECTOR as int].handler() == page_fault,
        t@[TIMER_VECTOR as int].handler() == timer,
        forall|v: int|
            v == DIVIDE_BY_ZERO_VECTOR || v == PAGE_FAULT_VECTOR || v == TIMER_VECTOR ==> {
                &&& #[trigger] t@[v].selector_spec() == KERNEL_CODE_SELECTOR
                &&& t@[v].type_attr_spec() == INTERRUPT_GATE
                &&& t@[v].ist_spec() == 0
                &&& t@[v].reserved_spec() == 0
            },
        forall|v: int|
            0 <= v < IDT_ENTRIES && v != DIVIDE_BY_ZERO_VECTOR && v != PAGE_FAULT_VECTOR && v
                != TIMER_VECTOR ==> #[trigger] t@[v].descriptor() == 0,
        forall|v: int| 0 <= v < IDT_ENTRIES ==> #[trigger] t@[v].ist_spec() == 0 && t@[v].reserved_spec() == 0,
{
    let mut t: Vec<IdtEntry> = Vec::new();
    let mut i: usize = 0;
    while i < IDT_ENTRIES
        invariant
            i <= IDT_ENTRIES,
            t@.len() == i,
            forall|v: int| 0 <= v < i ==> #[trigger] t@[v] == IdtEntry::new_spec(),
        decreases IDT_ENTRIES - i,
    {
        t.push(IdtEntry::new());
        i = i + 1;
    }
    proof {
        IdtEntry::lemma_empty_descriptor();
    }
    let mut e = IdtEntry::new();
    e.set_handler(divide_by_zero);
    t.set(DIVIDE_BY_ZERO_VECTOR, e);
    let mut e = IdtEntry::new();
    e.set_handler(page_fault);
    t.set(PAGE_FAULT_VECTOR, e);
    let mut e = IdtEntry::new();
    e.set_handler(timer);
    t.set(TIMER_VECTOR, e);
    t
}

impl IdtEntry {
    proof fn lemma_empty_descriptor()
        ensures
            IdtEntry::new_spec().descriptor() == 0,
    {
        assert((0u128 | (0u128 << 16u128) | (0u128 << 32u128) | (0u128 << 40u128) | (0u128
            << 48u128) | (0u128 << 64u128) | (0u128 << 96u128)) == 0u128) by (bit_vector);
    }

    /// The empty gate.
    pub closed spec fn new_spec() -> IdtEntry {
        IdtEntry {
            offset_low: 0,
            selector: 0,
            ist: 0,
            type_attr: 0,
            offset_mid: 0,
            offset_high: 0,
            reserved: 0,
        }
    }
}

/// The `lidt` operand for the 256-gate IDT at kernel address `idt_virt`.
pub fn idt_pointer(idt_virt: u64, offset: i64) -> (p: Idtr)
    requires
        i64::MIN <= (idt_virt as i64) + offset <= i64::MAX,
    ensures
        p.limit == 16 * IDT_ENTRIES - 1,
        p.base == to_phys_spec(idt_virt, offset),
{
    Idtr { limit: 4095, base: to_phys(idt_virt, offset) }
}

/// The CPU finds the handler address in the descriptor's offset fields (bits
/// 0-15, 48-63 and 64-95), the selector in bits 16-31, the stack-table index in
/// bits 32-39, the type and attributes in bits 40-47 and the reserved word in
/// bits 96-127.
pub proof fn lemma_descriptor_holds_handler(e: IdtEntry)
    ensures
        (e.descriptor() >> 32u128) & 0xFF == e.ist_spec() as u128,
        e.descriptor() >> 96u128 == e.reserved_spec() as u128,
        (e.descriptor() & 0xFFFF) | (((e.descriptor() >> 48u128) & 0xFFFF) << 16u128) | (((e.descriptor()
            >> 64u128) & 0xFFFF_FFFF) << 32u128) == e.handler() as u128,
        (e.descriptor() >> 16u128) & 0xFFFF == e.selector_spec() as u128,
        (e.descriptor() >> 40u128) & 0xFF == e.type_attr_spec() as u128,
{
    let ol = e.offset_low;
    let sel = e.selector;
    let ist = e.ist;
    let ta = e.type_attr;
    let om = e.offset_mid;
    let oh = e.offset_high;
    let rs = e.reserved;
    assert({
        let d = (ol as u128) | ((sel as u128) << 16u128) | ((ist as u128) << 32u128) | ((ta as u128)
            << 40u128) | ((om as u128) << 48u128) | ((oh as u128) << 64u128) | ((rs as u128) << 96u128);
        &&& (d & 0xFFFF) | (((d >> 48u128) & 0xFFFF) << 16u128) | (((d >> 64u128) & 0xFFFF_FFFF) << 32u128)
            == (((ol as u64) | ((om as u64) << 16u64) | ((oh as u64) << 32u64)) as u128)
        &&& (d >> 16u128) & 0xFFFF == sel as u128
        &&& (d >> 40u128) & 0xFF == ta as u128
        &&& (d >> 32u128) & 0xFF == ist as u128
        &&& d >> 96u128 == rs as u128
    }) by (bit_vector);
}

} // verus!
