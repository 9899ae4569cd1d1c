//! Physical memory: choosing where the heap and the page-table frames live,
//! handing out page-table frames, and the decisions of a four-level page walk.

use vstd::prelude::*;

verus! {

/// Size of a page and of a page-table frame.
pub const PAGE_SIZE: u64 = 4096;

/// Bytes kept at the end of the largest usable region for page-table frames.
pub const PAGE_TABLE_AREA: u64 = 1024 * 1024;

/// Physical address bits of a page-table entry (bits 12 to 51).
pub const ADDR_MASK: u64 = 0x000F_FFFF_FFFF_F000;

/// Present, writable and user-accessible: the flags of a new directory entry.
pub const DIRECTORY_FLAGS: u64 = 0x007;

/// Entries in one page table.
pub const ENTRIES: usize = 512;

/// One 4 KiB page table: 512 entries.
pub struct PageTable {
    pub entries: [u64; 512],
}

impl PageTable {
    /// Marks every entry not present (all zero).
    pub fn clear(&mut self)
        ensures
            forall|i: int| 0 <= i < 512 ==> #[trigger] final(self).entries@[i] == 0,
    {
        let mut i: usize = 0;
        while i < ENTRIES
            invariant
                i <= 512,
                forall|j: int| 0 <= j < i ==> #[trigger] self.entries@[j] == 0,
            decreases 512 - i,
        {
            self.entries[i] = 0;
            i = i + 1;
        }
    }
}

/// A stretch of physical memory reported by the boot loader.
pub struct MemoryRegion {
    pub base: u64,
    pub length: u64,
    /// Free for the kernel to use.
    pub usable: bool,
}

/// Where page-table frames and the heap go.
pub struct MemoryPlan {
    /// First frame handed out for page tables.
    pub frame_cursor: u64,
    /// End of the page-table frame area.
    pub frame_end: u64,
    /// Virtual (direct-mapped) start of the heap.
    pub heap_start: u64,
    pub heap_size: u64,
}

/// Index of the largest usable region among the first `n` of `regions`; among
/// regions of equal length the last one counts.
pub open spec fn largest_usable(regions: Seq<MemoryRegion>, n: int) -> Option<int>
    decreases n,
{
    if n <= 0 {
        None
    } else {
        let best = largest_usable(regions, n - 1);
        let r = regions[n - 1];
        if r.usable && (best is None || regions[best->0].length <= r.length) {
            Some(n - 1)
        } else {
            best
        }
    }
}

proof fn lemma_largest_usable(regions: Seq<MemoryRegion>, n: int)
    requires
        0 <= n <= regions.len(),
    ensures
        largest_usable(regions, n) is Some <==> exists|i: int| 0 <= i < n && #[trigger] regions[i].usable,
        largest_usable(regions, n) matches Some(b) ==> 0 <= b < n && regions[b].usable && forall|i: int|
            0 <= i < n && #[trigger] regions[i].usable ==> regions[i].length <= regions[b].length,
    decreases n,
{
    if n > 0 {
        lemma_largest_usable(regions, n - 1);
        if !regions[n - 1].usable && largest_usable(regions, n - 1) is None {
            assert forall|i: int| 0 <= i < n implies !#[trigger] regions[i].usable by {
                if i < n - 1 {
                } 
            }
        }
    }
}

/// Index of the largest usable region of `regions`, the last one among equals;
/// `None` when no region is usable.
pub fn largest_usable_region(regions: &Vec<MemoryRegion>) -> (best: Option<usize>)
    ensures
        match best {
            None => largest_usable(regions@, regions@.len() as int) is None,
            Some(b) => largest_usable(regions@, regions@.len() as int) == Some(b as int),
        },
{
    let mut best: Option<usize> = None;
    let mut i: usize = 0;
    while i < regions.len()
        invariant
            i <= regions@.len(),
            match best {
                None => largest_usable(regions@, i as int) is None,
                Some(b) => largest_usable(regions@, i as int) == Some(b as int) && b < regions@.len(),
            },
        decreases regions@.len() - i,
    {
        let r = &regions[i];
        if r.usable {
            match best {
                None => {
                    best = Some(i);
                },
                Some(b) => {
                    if regions[b].length <= r.length {
                        best = Some(i);
                    }
                },
            }
        }
        i = i + 1;
    }
    best
}

/// Lays out memory in `region`: its last 1 MiB for page-table frames, the rest
/// (reached through the direct map at `hhdm_offset`) for the heap.
pub fn init_memory(region: &MemoryRegion, hhdm_offset: u64) -> (plan: MemoryPlan)
    requires
        region.base + region.length <= u64::MAX,
        region.length >= PAGE_TABLE_AREA,
        region.base + hhdm_offset <= u64::MAX,
    ensures
        plan.frame_cursor == region.base + region.length - PAGE_TABLE_AREA,
        plan.frame_end == region.base + region.length,
        plan.heap_start == region.base + hhdm_offset,
        plan.heap_size == region.length - PAGE_TABLE_AREA,
{
    MemoryPlan {
        frame_cursor: region.base + region.length - PAGE_TABLE_AREA,
        frame_end: region.base + region.length,
        heap_start: region.base + hhdm_offset,
        heap_size: region.length - PAGE_TABLE_AREA,
    }
}

/// Hands out 4 KiB frames for page tables from `[cursor, end)`, lowest first.
pub struct FrameAllocator {
    pub cursor: u64,
    pub end: u64,
}

impl FrameAllocator {
    /// A frame is left to hand out.
    pub open spec fn can_allocate(&self) -> bool {
        self.cursor + PAGE_SIZE <= self.end
    }

    /// An allocator over the page-table area of `plan`.
    pub fn new(plan: &MemoryPlan) -> (a: Self)
        ensures
            a.cursor == plan.frame_cursor,
            a.end == plan.frame_end,
    {
        FrameAllocator { cursor: plan.frame_cursor, end: plan.frame_end }
    }

    /// Hands out the next frame.
    pub fn allocate_frame(&mut self) -> (frame: u64)
        requires
            old(self).can_allocate(),
        ensures
            frame == old(self).cursor,
            final(self).cursor == old(self).cursor + PAGE_SIZE,
            final(self).end == old(self).end,
    {
        let frame = self.cursor;
        self.cursor = self.cursor + PAGE_SIZE;
        frame
    }
}

/// The entry refers to a page or table (present bit set).
pub open spec fn present(entry: u64) -> bool {
    entry & 1 == 1
}

/// Follows a directory entry to the table it refers to, creating that table
/// first when the entry is not present: a fresh frame is taken and the entry
/// set to it with the directory flags. Returns the table's physical address and
/// whether it is fresh (its memory still has to be cleared).
pub fn get_or_create_table(entry: &mut u64, frames: &mut FrameAllocator) -> (r: (u64, bool))
    requires
        !present(*old(entry)) ==> old(frames).can_allocate(),
    ensures
        present(*old(entry)) ==> {
            &&& *final(entry) == *old(entry)
            &&& *final(frames) == *old(frames)
            &&& !r.1
        },
        !present(*old(entry)) ==> {
            &&& *final(entry) == old(frames).cursor | DIRECTORY_FLAGS
            &&& final(frames).cursor == old(frames).cursor + PAGE_SIZE
            &&& final(frames).end == old(frames).end
            &&& r.1
        },
        r.0 == *final(entry) & ADDR_MASK,
{
    proof {
        let e = *entry;
        assert((e & 1 == 0) == !(e & 1 == 1)) by (bit_vector);
    }
    if (*entry & 1) == 0 {
        let new_frame_phys = frames.allocate_frame();
        *entry = new_frame_phys | DIRECTORY_FLAGS;
        (*entry & ADDR_MASK, true)
    } else {
        (*entry & ADDR_MASK, false)
    }
}

/// Table index that `virt` selects at page-table `level` (0 = PML4, 3 = PT):
/// nine bits, starting at bit 39, 30, 21 or 12.
pub open spec fn level_index(virt: u64, level: int) -> u64 {
    (virt >> ((39 - 9 * level) as u64)) & 0x1FF
}

/// The kernel's view of the active page tables: where it reaches the PML4
/// (through the direct map) and the offset of that map.
pub struct PageTableManager {
    pub pml4: u64,
    pub hhdm_offset: u64,
}

/// One mapping in progress: which level the walk has reached.
pub struct PageWalk {
    pub virt: u64,
    pub phys: u64,
    pub flags: u64,
    /// 0 = PML4, 1 = PDPT, 2 = PD, 3 = PT, 4 = finished.
    pub level: usize,
}

/// What the walk asks for after an entry was handled.
pub enum WalkAction {
    /// Continue in the table at physical address `table`; `fresh` tables must be cleared first.
    Descend { table: u64, fresh: bool },
    /// The page-table entry is written; the TLB entry for the address must be flushed.
    Done,
}

impl PageTableManager {
    pub fn new(pml4: u64, hhdm_offset: u64) -> (m: Self)
        ensures
            m.pml4 == pml4,
            m.hhdm_offset == hhdm_offset,
    {
        PageTableManager { pml4, hhdm_offset }
    }

    /// Where physical address `phys` is seen through the direct map.
    pub fn table_virt(&self, phys: u64) -> (v: u64)
        requires
            phys + self.hhdm_offset <= u64::MAX,
        ensures
            v == phys + self.hhdm_offset,
    {
        phys + self.hhdm_offset
    }

    /// Starts mapping the 4 KiB page at `virt` to `phys` with `flags`; the walk
    /// begins in the PML4.
    pub fn map_page(&self, virt: u64, phys: u64, flags: u64) -> (w: PageWalk)
        ensures
            w.virt == virt,
            w.phys == phys,
            w.flags == flags,
            w.level == 0,
    {
        PageWalk { virt, phys, flags, level: 0 }
    }
}

/// Address at which the kernel reaches the PML4 that control register CR3 points
/// to, through the direct map at `hhdm_offset`.
pub fn get_current_pml4(cr3: u64, hhdm_offset: u64) -> (v: u64)
    requires
        (cr3 & ADDR_MASK) + hhdm_offset <= u64::MAX,
    ensures
        v == (cr3 & ADDR_MASK) + hhdm_offset,
{
    (cr3 & ADDR_MASK) + hhdm_offset
}

impl PageWalk {
    /// Index of the entry to handle in the current table.
    pub fn index(&self) -> (i: usize)
        requires
            self.level < 4,
        ensures
            i == level_index(self.virt, self.level as int),
            i < ENTRIES,
    {
        let shift: u64 = 39 - 9 * self.level as u64;
        let i = (self.virt >> shift) & 0x1FF;
        proof {
            let v = self.virt;
            assert((v >> shift) & 0x1FF < 512) by (bit_vector);
        }
        i as usize
    }

    /// Handles `entry`, the entry at `index()` in the current table: in a
    /// directory it is followed (created if needed, see `get_or_create_table`);
    /// in the last table it is set to `phys | flags`.
    pub fn step(&mut self, entry: &mut u64, frames: &mut FrameAllocator) -> (a: WalkAction)
        requires
            old(self).level < 4,
            old(self).level < 3 && !present(*old(entry)) ==> old(frames).can_allocate(),
        ensures
            final(self).virt == old(self).virt,
            final(self).phys == old(self).phys,
            final(self).flags == old(self).flags,
            final(self).level == old(self).level + 1,
            old(self).level == 3 ==> {
                &&& *final(entry) == old(self).phys | old(self).flags
                &&& *final(frames) == *old(frames)
                &&& a is Done
            },
            old(self).level < 3 ==> {
                &&& (present(*old(entry)) ==> *final(entry) == *old(entry) && *final(frames) == *old(frames)
                    && a == WalkAction::Descend { table: *old(entry) & ADDR_MASK, fresh: false })
                &&& (!present(*old(entry)) ==> *final(entry) == old(frames).cursor | DIRECTORY_FLAGS
                    && final(frames).cursor == old(frames).cursor + PAGE_SIZE && final(frames).end == old(
                    frames).end && a == WalkAction::Descend {
                    table: (old(frames).cursor | DIRECTORY_FLAGS) & ADDR_MASK,
                    fresh: true,
                })
            },
    {
        if self.level == 3 {
            *entry = self.phys | self.flags;
            self.level = 4;
            WalkAction::Done
        } else {
            let (table, fresh) = get_or_create_table(entry, frames);
            self.level = self.level + 1;
            WalkAction::Descend { table, fresh }
        }
    }
}

/// The four table indices of a walk determine the page: two addresses that select
/// the same entry at every level lie in the same 4 KiB page (bits 12 to 47 agree),
/// so mapping one page never writes the last-level entry of another.
pub proof fn lemma_walk_indices_determine_page(a: u64, b: u64)
    requires
        level_index(a, 0) == level_index(b, 0),
        level_index(a, 1) == level_index(b, 1),
        level_index(a, 2) == level_index(b, 2),
        level_index(a, 3) == level_index(b, 3),
    ensures
        a & 0x0000_FFFF_FFFF_F000 == b & 0x0000_FFFF_FFFF_F000,
{
    assert((39 - 9 * 0int) as u64 == 39u64);
    assert((39 - 9 * 1int) as u64 == 30u64);
    assert((39 - 9 * 2int) as u64 == 21u64);
    assert((39 - 9 * 3int) as u64 == 12u64);
    assert(a & 0x0000_FFFF_FFFF_F000 == b & 0x0000_FFFF_FFFF_F000) by (bit_vector)
        requires
            (a >> 39u64) & 0x1FF == (b >> 39u64) & 0x1FF,
            (a >> 30u64) & 0x1FF == (b >> 30u64) & 0x1FF,
            (a >> 21u64) & 0x1FF == (b >> 21u64) & 0x1FF,
            (a >> 12u64) & 0x1FF == (b >> 12u64) & 0x1FF,
    ;
}

/// A directory entry made for a page-aligned frame below 2^52 is present and
/// leads to that frame: the next step of the walk finds the new table again.
pub proof fn lemma_new_entry_leads_to_frame(frame: u64)
    requires
        frame % PAGE_SIZE == 0,
        frame < 0x0010_0000_0000_0000,
    ensures
        present(frame | DIRECTORY_FLAGS),
        (frame | DIRECTORY_FLAGS) & ADDR_MASK == frame,
{
    assert(frame & 0xFFF == 0) by (bit_vector)
        requires
            frame % 4096 == 0,
    ;
    assert((frame | 7) & 1 == 1) by (bit_vector);
    assert((frame | 7) & 0x000F_FFFF_FFFF_F000 == frame) by (bit_vector)
        requires
            frame & 0xFFF == 0,
            frame < 0x0010_0000_0000_0000,
    ;
}

/// The region chosen for the heap and the page-table frames is usable and at
/// least as long as every other usable region; there is one whenever some region
/// is usable.
pub proof fn lemma_largest_usable_is_largest(regions: Seq<MemoryRegion>)
    ensures
        largest_usable(regions, regions.len() as int) is Some <==> exists|i: int|
            0 <= i < regions.len() && #[trigger] regions[i].usable,
        largest_usable(regions, regions.len() as int) matches Some(b) ==> {
            &&& 0 <= b < regions.len()
            &&& regions[b].usable
            &&& forall|i: int| 0 <= i < regions.len() && #[trigger] regions[i].usable ==> regions[i].length
                <= regions[b].length
        },
{
    lemma_largest_usable(regions, regions.len() as int);
}

/// The page-table frames and the heap split the region without overlap: the
/// heap's physical range ends where the frame area begins, and the frame area
/// ends where the region ends.
pub proof fn lemma_plan_splits_region(region: MemoryRegion, hhdm_offset: u64, plan: MemoryPlan)
    requires
        region.length >= PAGE_TABLE_AREA,
        plan.frame_cursor == region.base + region.length - PAGE_TABLE_AREA,
        plan.frame_end == region.base + region.length,
        plan.heap_start == region.base + hhdm_offset,
        plan.heap_size == region.length - PAGE_TABLE_AREA,
    ensures
        plan.heap_start - hhdm_offset + plan.heap_size == plan.frame_cursor,
        plan.frame_end - plan.frame_cursor == PAGE_TABLE_AREA,
        plan.heap_start - hhdm_offset == region.base,
{
}

/// Page-table memory as a walk sees it: entry `i` of the table at `t`.
pub open spec fn write_entry(m: spec_fn(u64, u64) -> u64, t: u64, i: u64, v: u64) -> spec_fn(u64, u64) -> u64 {
    |t2: u64, i2: u64| if t2 == t && i2 == i { v } else { m(t2, i2) }
}

/// `m` with every entry of the table at `t` cleared.
pub open spec fn clear_table(m: spec_fn(u64, u64) -> u64, t: u64) -> spec_fn(u64, u64) -> u64 {
    |t2: u64, i2: u64| if t2 == t { 0 } else { m(t2, i2) }
}

/// The last-level entry that translating `virt` reaches from the table at
/// `root`, or `None` when a directory entry on the way is not present.
pub open spec fn translate(m: spec_fn(u64, u64) -> u64, root: u64, virt: u64) -> Option<u64> {
    let e0 = m(root, level_index(virt, 0));
    if !present(e0) {
        None
    } else {
        let e1 = m(e0 & ADDR_MASK, level_index(virt, 1));
        if !present(e1) {
            None
        } else {
            let e2 = m(e1 & ADDR_MASK, level_index(virt, 2));
            if !present(e2) {
                None
            } else {
                Some(m(e2 & ADDR_MASK, level_index(virt, 3)))
            }
        }
    }
}

/// One directory step of a walk for `virt` at `level` in the table at `t`, as
/// `PageWalk::step` performs it and the fresh table is then cleared: memory
/// afterwards, the next table, and the frame cursor afterwards.
pub open spec fn descend(m: spec_fn(u64, u64) -> u64, t: u64, level: int, virt: u64, cursor: u64) -> (
    spec_fn(u64, u64) -> u64,
    u64,
    u64,
) {
    let i = level_index(virt, level);
    let e = m(t, i);
    if present(e) {
        (m, e & ADDR_MASK, cursor)
    } else {
        let ne = cursor | DIRECTORY_FLAGS;
        (clear_table(write_entry(m, t, i, ne), ne & ADDR_MASK), ne & ADDR_MASK, (cursor + PAGE_SIZE) as u64)
    }
}

/// Mapping a page and then translating its address finds the new entry: after
/// the three directory steps and the last-level write of a walk for `virt`, the
/// translation of `virt` from the same root gives `phys | flags`. This holds when
/// the four tables on the path are different tables.
pub proof fn lemma_map_then_translate(
    m: spec_fn(u64, u64) -> u64,
    root: u64,
    virt: u64,
    phys: u64,
    flags: u64,
    cursor: u64,
)
    requires
        ({
            let (m1, t1, c1) = descend(m, root, 0, virt, cursor);
            let (m2, t2, c2) = descend(m1, t1, 1, virt, c1);
            let (m3, t3, c3) = descend(m2, t2, 2, virt, c2);
            &&& t1 != root
            &&& t2 != root && t2 != t1
            &&& t3 != root && t3 != t1 && t3 != t2
        }),
    ensures
        ({
            let (m1, t1, c1) = descend(m, root, 0, virt, cursor);
            let (m2, t2, c2) = descend(m1, t1, 1, virt, c1);
            let (m3, t3, c3) = descend(m2, t2, 2, virt, c2);
            let m4 = write_entry(m3, t3, level_index(virt, 3), phys | flags);
            translate(m4, root, virt) == Some(phys | flags)
        }),
{
    let (m1, t1, c1) = descend(m, root, 0, virt, cursor);
    let (m2, t2, c2) = descend(m1, t1, 1, virt, c1);
    let (m3, t3, c3) = descend(m2, t2, 2, virt, c2);
    let m4 = write_entry(m3, t3, level_index(virt, 3), phys | flags);
    let i0 = level_index(virt, 0);
    let i1 = level_index(virt, 1);
    let i2 = level_index(virt, 2);
    let i3 = level_index(virt, 3);
    // Each step leaves an entry in its table that is present and leads to the next table.
    assert(forall|c: u64| #[trigger] (c | 7u64) & 1 == 1) by (bit_vector);
    assert(present(m1(root, i0)) && m1(root, i0) & ADDR_MASK == t1);
    assert(present(m2(t1, i1)) && m2(t1, i1) & ADDR_MASK == t2);
    assert(present(m3(t2, i2)) && m3(t2, i2) & ADDR_MASK == t3);
    // Later steps only touch later tables.
    assert(m2(root, i0) == m1(root, i0));
    assert(m3(root, i0) == m1(root, i0));
    assert(m3(t1, i1) == m2(t1, i1));
    assert(m4(root, i0) == m1(root, i0));
    assert(m4(t1, i1) == m2(t1, i1));
    assert(m4(t2, i2) == m3(t2, i2));
    assert(m4(t3, i3) == phys | flags);
}

} // verus!
