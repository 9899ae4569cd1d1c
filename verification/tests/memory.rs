use rusticos::memory::{
    get_current_pml4, get_or_create_table, init_memory, largest_usable_region, FrameAllocator, MemoryRegion, PageTable,
    PageTableManager, WalkAction,
};

#[test]
fn clear_zeroes_every_entry() {
    let mut t = PageTable { entries: [0xFFFF_FFFF; 512] };
    t.clear();
    assert!(t.entries.iter().all(|&e| e == 0));
}

#[test]
fn plan_uses_last_largest_usable_region() {
    let regions = vec![
        MemoryRegion { base: 0x1000, length: 0x20_0000, usable: true },
        MemoryRegion { base: 0x100_0000, length: 0x800_0000, usable: false },
        MemoryRegion { base: 0x40_0000, length: 0x30_0000, usable: true },
        MemoryRegion { base: 0x80_0000, length: 0x30_0000, usable: true },
    ];
    let best = largest_usable_region(&regions).unwrap();
    assert_eq!(best, 3);
    let plan = init_memory(&regions[best], 0xFFFF_8000_0000_0000);
    assert_eq!(plan.frame_end, 0x80_0000 + 0x30_0000);
    assert_eq!(plan.frame_cursor, 0x80_0000 + 0x30_0000 - 0x10_0000);
    assert_eq!(plan.heap_start, 0xFFFF_8000_0080_0000);
    assert_eq!(plan.heap_size, 0x20_0000);
}

#[test]
fn no_usable_region() {
    let regions = vec![MemoryRegion { base: 0, length: 0x1000_0000, usable: false }];
    assert_eq!(largest_usable_region(&regions), None);
    assert_eq!(largest_usable_region(&Vec::new()), None);
}

#[test]
fn frames_are_handed_out_in_order() {
    let mut a = FrameAllocator { cursor: 0x1000, end: 0x3000 };
    assert_eq!(a.allocate_frame(), 0x1000);
    assert_eq!(a.allocate_frame(), 0x2000);
    assert_eq!(a.cursor, 0x3000);
}

#[test]
fn present_entry_is_followed() {
    let mut e: u64 = 0x0000_0000_0012_3007;
    let mut a = FrameAllocator { cursor: 0x5000, end: 0x6000 };
    assert_eq!(get_or_create_table(&mut e, &mut a), (0x12_3000, false));
    assert_eq!(e, 0x12_3007);
    assert_eq!(a.cursor, 0x5000);
}

#[test]
fn missing_entry_gets_a_fresh_table() {
    let mut e: u64 = 0;
    let mut a = FrameAllocator { cursor: 0x5000, end: 0x6000 };
    assert_eq!(get_or_create_table(&mut e, &mut a), (0x5000, true));
    assert_eq!(e, 0x5007);
    assert_eq!(a.cursor, 0x6000);
}

#[test]
fn current_pml4_through_direct_map() {
    assert_eq!(get_current_pml4(0x0000_0000_0010_1018, 0xFFFF_8000_0000_0000), 0xFFFF_8000_0010_1000);
}

#[test]
fn walk_visits_each_level_and_writes_leaf() {
    let m = PageTableManager::new(0x1000, 0xFFFF_8000_0000_0000);
    assert_eq!(m.table_virt(0x1000), 0xFFFF_8000_0000_1000);
    let virt: u64 = 0xffff_a000_0000_0000 | (5 << 30) | (6 << 21) | (7 << 12);
    let mut walk = m.map_page(virt, 0xFE00_0000, 0x1B);
    let mut frames = FrameAllocator { cursor: 0x10_0000, end: 0x20_0000 };
    let expected_index = [320usize, 5, 6, 7];
    let mut entries = [0u64, 0x8003, 0, 0];
    let mut tables = Vec::new();
    for level in 0..4 {
        assert_eq!(walk.index(), expected_index[level]);
        match walk.step(&mut entries[level], &mut frames) {
            WalkAction::Descend { table, fresh } => tables.push((table, fresh)),
            WalkAction::Done => assert_eq!(level, 3),
        }
    }
    assert_eq!(tables, vec![(0x10_0000, true), (0x8000, false), (0x10_1000, true)]);
    assert_eq!(entries, [0x10_0007, 0x8003, 0x10_1007, 0xFE00_001B]);
    assert_eq!(walk.level, 4);
}
