use rusticos::pci::next_function;
use rusticos::dwm::font::{glyph_key, CachedGlyph, FontManager, GlyphCache};
use rusticos::xhci::{address_device_outcome, enable_slot_outcome, AddressOutcome, CommandEvent, FailureHint, SlotOutcome};
use rusticos::xhci::{
    address_device_trb, bar_assignment, bar_is_64bit, bar_unassigned, config_with_slots, controller_not_ready,
    dequeue_pointer_words, dump_position, enable_memory_and_bus_master, enable_slot_trb, erst_size_one,
    function_present, halted, is_xhci_controller, misaligned, mmio_base, parse_capability, parse_event,
    port_speed_name, portsc_offset, reset_pending, runtime_base, slot_context_words, structural_params,
    usbcmd_run, usbcmd_stop,
};

#[test]
fn finds_xhci_controllers() {
    assert!(function_present(0x1234_8086));
    assert!(!function_present(0xFFFF_FFFF));
    assert!(is_xhci_controller(0x0C03_3001));
    assert!(!is_xhci_controller(0x0C03_2001));
    assert!(!is_xhci_controller(0x0106_0101));
}

#[test]
fn bar_handling() {
    assert!(bar_unassigned(0x0000_0004));
    assert!(!bar_unassigned(0xFEBF_0004));
    assert!(bar_is_64bit(0x4));
    assert_eq!(bar_assignment(0x4, 0xFE00_0000), (0xFE00_0004, Some(0)));
    assert_eq!(bar_assignment(0x0, 0xFE00_0000), (0xFE00_0000, None));
    assert_eq!(mmio_base(0xFE00_0004, 0x1), 0x1_FE00_0000);
    assert_eq!(mmio_base(0xFE00_0000, 0x1), 0xFE00_0000);
    assert_eq!(enable_memory_and_bus_master(0x0010_0000), 0x0010_0006);
    // an assigned BAR reads back as the address it was given
    let (low, high) = bar_assignment(0x0000_000C, 0x12_3456_7890);
    assert_eq!(mmio_base(low, high.unwrap()), 0x12_3456_7890);
    let (low, high) = bar_assignment(0x0000_0008, 0xFE00_0000);
    assert_eq!(high, None);
    assert_eq!(mmio_base(low, 0xDEAD), 0xFE00_0000);
}

#[test]
fn capability_and_operational_registers() {
    assert_eq!(parse_capability(0x0100_0020), (0x20, 0x0100));
    assert_eq!(structural_params(0x0800_0440), (0x40, 0x08));
    assert_eq!(usbcmd_stop(0x5), 0x4);
    assert_eq!(usbcmd_run(0x4), 0x5);
    assert!(halted(0x1));
    assert!(reset_pending(0x2));
    assert!(controller_not_ready(0x801));
    assert_eq!(config_with_slots(0xABCD_EF12, 0x40), 0xABCD_EF40);
    assert_eq!(erst_size_one(0x1234_5678), 0x1234_0001);
    assert_eq!(runtime_base(0x1000, 0x2025), 0x3020);
    assert!(misaligned(0x1001));
    assert!(!misaligned(0x2000));
}

#[test]
fn command_trbs() {
    assert_eq!(enable_slot_trb(), [0, 0, 0, 0x2401]);
    assert_eq!(address_device_trb(0x1_2345_6000, 3), [0x2345_6000, 0x1, 0, 0x0300_2C01]);
    let (slot, port, ep0) = slot_context_words(5);
    assert_eq!(slot, 0x0830_0000);
    assert_eq!(port, 0x0005_0000);
    assert_eq!(ep0, 0x0040_0020);
    assert_eq!(dequeue_pointer_words(0x2_0000_1000), (0x1001, 0x2));
    assert_eq!(portsc_offset(5), 0x440);
    assert_eq!(dump_position(9), (100, 120));
}

#[test]
fn events() {
    assert!(parse_event(0x0100_0000, 0x0100_8400).is_none());
    let e = parse_event(0x0100_0000, 0x0100_8401).unwrap();
    assert_eq!((e.completion_code, e.slot_id, e.trb_type), (1, 1, 33));
}

#[test]
fn port_speeds() {
    assert_eq!(port_speed_name(0), "Not Connected");
    assert_eq!(port_speed_name(0x0401), "Full-Speed");
    assert_eq!(port_speed_name(0x0801), "Low-Speed");
    assert_eq!(port_speed_name(0x0C01), "High-Speed");
    assert_eq!(port_speed_name(0x1001), "SuperSpeed");
    assert_eq!(port_speed_name(0x1401), "?? (Unknown Speed)");
}

#[test]
fn glyph_cache_stores_by_char_and_size() {
    let mut cache = GlyphCache::new();
    assert!(cache.lookup('a', 160).is_none());
    let g = CachedGlyph { width: 1, height: 1, top: -3, left: 1, advance_bits: 7, alpha_map: vec![9] };
    cache.store('a', 160, g);
    assert_eq!(cache.lookup('a', 160).unwrap().alpha_map, vec![9]);
    assert!(cache.lookup('a', 161).is_none());
    assert!(cache.lookup('b', 160).is_none());
    assert_eq!(glyph_key('a', 160), (0x61u64 << 32) | 160);
}

#[test]
fn command_outcomes() {
    let ev = |code, slot, ty| CommandEvent { completion_code: code, slot_id: slot, trb_type: ty };
    assert!(matches!(enable_slot_outcome(&ev(1, 4, 33)), SlotOutcome::Enabled { slot_id: 4 }));
    assert!(matches!(enable_slot_outcome(&ev(9, 4, 33)), SlotOutcome::Failed { completion_code: 9 }));
    assert!(matches!(address_device_outcome(&ev(1, 1, 32)), AddressOutcome::NotCompletion));
    assert!(matches!(address_device_outcome(&ev(1, 1, 33)), AddressOutcome::Addressed));
    assert!(matches!(
        address_device_outcome(&ev(17, 1, 33)),
        AddressOutcome::Failed { completion_code: 17, hint: Some(FailureHint::ContextState) }
    ));
    assert!(matches!(
        address_device_outcome(&ev(19, 1, 33)),
        AddressOutcome::Failed { completion_code: 19, hint: Some(FailureHint::Parameter) }
    ));
    assert!(matches!(address_device_outcome(&ev(5, 1, 33)), AddressOutcome::Failed { completion_code: 5, hint: None }));
}

#[test]
fn bytes_that_are_no_font_are_refused() {
    assert!(FontManager::new(&[]).is_none());
    assert!(FontManager::new(b"not a font at all, just some text").is_none());
}

#[test]
fn pci_scan_order() {
    assert_eq!(next_function(0, 0, 0), Some((0, 0, 1)));
    assert_eq!(next_function(0, 0, 7), Some((0, 1, 0)));
    assert_eq!(next_function(3, 31, 7), Some((4, 0, 0)));
    assert_eq!(next_function(255, 31, 7), None);
}
