use rusticos::arch::apic::apic_timer_writes;
use rusticos::arch::gdt::{gdt_pointer, load_offset, to_phys, GdtEntry, KERNEL_CODE_DESCRIPTOR, KERNEL_DATA_DESCRIPTOR};
use rusticos::arch::getsysteminfo::get_cpu_name;
use rusticos::arch::idt::{build_idt, idt_pointer, IdtEntry, InterruptStackFrame};
use rusticos::arch::timer::{get_uptime_ms, rtc_update_in_progress, sleep_ms, tsc_frequency};
use rusticos::pci::pci_config_address;

#[test]
fn gdt_entries_match_the_table() {
    assert_eq!(GdtEntry::new(0x9A, 0xAF).to_bits(), KERNEL_CODE_DESCRIPTOR);
    assert_eq!(GdtEntry::new(0x92, 0xCF).to_bits(), KERNEL_DATA_DESCRIPTOR);
}

#[test]
fn gdt_pointer_is_physical() {
    let offset = load_offset(0x20_0000, 0xFFFF_FFFF_8000_0000);
    assert_eq!(offset, 0x20_0000 + 0x8000_0000);
    assert_eq!(to_phys(0xFFFF_FFFF_8000_1000, offset), 0x20_1000);
    assert_eq!(to_phys(0xFFFF_FFFF_8000_0000, offset), 0x20_0000);
    let p = gdt_pointer(0xFFFF_FFFF_8000_1000, offset);
    assert_eq!(p.limit(), 23);
    assert_eq!(p.base(), 0x20_1000);
}

#[test]
fn idt_entry_holds_handler() {
    let mut e = IdtEntry::new();
    assert_eq!(e.to_bits(), 0);
    e.set_handler(0x1234_5678_9ABC_DEF0);
    let d = e.to_bits();
    assert_eq!(d & 0xFFFF, 0xDEF0);
    assert_eq!((d >> 16) & 0xFFFF, 0x08);
    assert_eq!((d >> 40) & 0xFF, 0x8E);
    assert_eq!((d >> 48) & 0xFFFF, 0x9ABC);
    assert_eq!((d >> 64) & 0xFFFF_FFFF, 0x1234_5678);
}

#[test]
fn idt_has_three_gates() {
    let t = build_idt(0x1000, 0x2000, 0x3000);
    assert_eq!(t.len(), 256);
    assert_eq!(t[0].to_bits() & 0xFFFF, 0x1000);
    assert_eq!(t[14].to_bits() & 0xFFFF, 0x2000);
    assert_eq!(t[32].to_bits() & 0xFFFF, 0x3000);
    assert_eq!(t.iter().filter(|e| e.to_bits() != 0).count(), 3);
    let p = idt_pointer(0x5000, -0x1000);
    assert_eq!(p.limit, 4095);
    assert_eq!(p.base, 0x4000);
    let f = InterruptStackFrame { instruction_pointer: 1, code_segment: 8, cpu_flags: 2, stack_pointer: 3, stack_segment: 16 };
    assert_eq!(f.code_segment, 8);
}

fn brand_registers(s: &[u8; 48]) -> [u32; 12] {
    let mut r = [0u32; 12];
    for k in 0..12 {
        r[k] = u32::from_le_bytes([s[4 * k], s[4 * k + 1], s[4 * k + 2], s[4 * k + 3]]);
    }
    r
}

#[test]
fn cpu_name_is_trimmed() {
    let mut s = [b' '; 48];
    let name = b"Intel(R) Core(TM) i5-13620H";
    s[4..4 + name.len()].copy_from_slice(name);
    assert_eq!(get_cpu_name(&brand_registers(&s)), "Intel(R) Core(TM) i5-13620H");
}

#[test]
fn invalid_brand_string_is_unknown() {
    let mut s = [b'A'; 48];
    s[0] = 0xFF;
    assert_eq!(get_cpu_name(&brand_registers(&s)), "Unknown CPU");
}

#[test]
fn uptime_and_sleep() {
    assert_eq!(get_uptime_ms(5_000, 1_000, 0), 0);
    assert_eq!(get_uptime_ms(3_001_000, 1_000, 2_000_000), 1500);
    let mut last = 0;
    for now in (1_000..100_000).step_by(997) {
        let ms = get_uptime_ms(now, 1_000, 3_000);
        assert!(ms >= last);
        last = ms;
    }
    assert_eq!(tsc_frequency(100, 2_400_000_100), 2_400_000_000);
    let s = sleep_ms(1000, 250);
    assert_eq!(s.target, 1250);
    assert!(!s.is_done(1249));
    assert!(s.is_done(1250));
    assert!(rtc_update_in_progress(0x80));
    assert!(!rtc_update_in_progress(0x7F));
}

#[test]
fn pci_address_layout() {
    assert_eq!(pci_config_address(0, 0, 0, 0), 0x8000_0000);
    assert_eq!(pci_config_address(1, 2, 3, 0x13), 0x8001_1310);
    assert_eq!(pci_config_address(0xFF, 31, 7, 0xFF), 0x80FF_FFFC);
}

#[test]
fn apic_timer_setup() {
    let w = apic_timer_writes(0xFFFF_8000_0000_0000);
    assert_eq!(w, vec![
        (0xFFFF_8000_FEE0_03E0, 0x03),
        (0xFFFF_8000_FEE0_0320, 0x20020),
        (0xFFFF_8000_FEE0_0380, 0x10000),
    ]);
}
