//! x86_64 descriptor tables, CPU identification and timekeeping.

pub mod apic;
pub mod gdt;
pub mod idt;
pub mod getsysteminfo;
pub mod timer;
