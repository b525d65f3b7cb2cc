//! AArch64 paging for user address spaces.
//!
//! The process's part of the address space, from `MIN_VIRTUAL_USER`, goes
//! through TTBR1 with three levels of tables and 4 KB pages; the walk
//! indexes the tables with the offset of an address from
//! `MIN_VIRTUAL_USER`.
//!
//! The process's tables live in `tables`. New tables come, zeroed, from
//! `spare_frames` (the caller keeps it stocked); the pages whose TLB entries
//! must be invalidated are queued in `tlb_flushes`.
use vstd::prelude::*;
use crate::arch::paging::{PageTables, TABLE_ENTRIES, spec_read, zero_table, KernelPool, spec_first_window, spec_fill, spec_clear};
use crate::drivers::MemoryType;

verus! {

pub const MIN_KPOOL_VIRTUAL: u64 = 0x1_0000_0000;
pub const MAX_KPOOL_VIRTUAL: u64 = 0x2_0000_0000;
pub const KPOOL_PAGES: usize = 0x10_0000;
pub const MIN_VIRTUAL_USER: u64 = 0xFFFF_FFF0_0000_0000;
pub const MAX_VIRTUAL: u64 = 0xFFFF_FFFF_FFFF_0000 - 1;
/// The largest offset of a user address from `MIN_VIRTUAL_USER`.
pub const MAX_USER_OFFSET: u64 = 0xF_FFFE_FFFF;
pub const PAGE_SIZE: usize = 0x1000;
pub const PAGE_BASE_MASK: u64 = 0xFFFF_FFFF_FFFF_F000;
pub const PGENT_BLK_DESC: u64 = 0x1;
pub const PGENT_TBL_DESC: u64 = 0x3;
pub const PGENT_PG_DESC: u64 = 0x3;
pub const PGENT_USERMODE: u64 = 0x40;
pub const PGENT_RO: u64 = 0x80;
pub const PGENT_INSH: u64 = 0x300;
pub const PGENT_ACCESS: u64 = 0x400;
pub const PGENT_KXN: u64 = 0x20_0000_0000_0000;
pub const PGENT_UXN: u64 = 0x40_0000_0000_0000;
pub const PHYS_ADDR_MASK: u64 = 0xFFFF_FFFF_F000;

/// The flags of an entry that points to a table: table descriptor,
/// user-accessible, inner shareable, accessed.
pub open spec fn table_flags() -> u64 {
    PGENT_TBL_DESC | PGENT_USERMODE | PGENT_INSH | PGENT_ACCESS
}

/// The flags of a page entry: page descriptor, user-accessible, inner
/// shareable, accessed; read-only unless writable, not executable at EL0
/// unless executable.
pub open spec fn spec_page_flags(w: bool, x: bool) -> u64 {
    PGENT_PG_DESC | PGENT_USERMODE | PGENT_INSH | PGENT_ACCESS | (if !w {
        PGENT_RO
    } else {
        0
    }) | (if !x {
        PGENT_UXN
    } else {
        0
    })
}

pub fn page_flags(w: bool, x: bool) -> (f: u64)
    ensures
        f == spec_page_flags(w, x),
{
    let ro: u64 = if !w {
        PGENT_RO
    } else {
        0
    };
    let xn: u64 = if !x {
        PGENT_UXN
    } else {
        0
    };
    PGENT_PG_DESC | PGENT_USERMODE | PGENT_INSH | PGENT_ACCESS | ro | xn
}

/// Index of an address offset in the level-1, level-2 and level-3 tables.
pub open spec fn idx1(v: u64) -> int {
    ((v >> 30u64) & 0x1FF) as int
}

pub open spec fn idx2(v: u64) -> int {
    ((v >> 21u64) & 0x1FF) as int
}

pub open spec fn idx3(v: u64) -> int {
    ((v >> 12u64) & 0x1FF) as int
}

/// The frame an entry points to.
pub open spec fn entry_base(e: u64) -> usize {
    (e & PHYS_ADDR_MASK) as usize
}

/// The physical page an address offset maps to, following the level-1
/// table at `root` (`None` where a table or the page is missing).
pub open spec fn spec_translate(m: Map<usize, Seq<u64>>, root: usize, v: u64) -> Option<u64> {
    if root == 0 {
        None
    } else {
        let e1 = spec_read(m, root, idx1(v));
        if e1 & PHYS_ADDR_MASK == 0 {
            None
        } else {
            let e2 = spec_read(m, entry_base(e1), idx2(v));
            if e2 & PHYS_ADDR_MASK == 0 {
                None
            } else {
                let e3 = spec_read(m, entry_base(e2), idx3(v));
                if e3 & PGENT_PG_DESC == 0 {
                    None
                } else {
                    Some(e3 & PHYS_ADDR_MASK)
                }
            }
        }
    }
}

/// The tables of an address space while pages are being mapped: the
/// tables, the spare frames, the level-2 and level-3 tables, and the pages
/// whose TLB entries are to be invalidated.
pub struct MapWalk {
    pub mem: Map<usize, Seq<u64>>,
    pub spare: Seq<usize>,
    pub l2: Set<usize>,
    pub l3: Set<usize>,
    pub flushes: Seq<usize>,
}

/// An upper-level entry is empty or points to a table of the next level.
pub open spec fn entry_ok(e: u64, next: Set<usize>) -> bool {
    e == 0 || (e & PHYS_ADDR_MASK != 0 && next.contains(entry_base(e)))
}

/// A page entry is empty or has its valid bit set.
pub open spec fn leaf_ok(e: u64) -> bool {
    e == 0 || e & 1 != 0
}

/// A frame that can hold a new table: page-aligned, not 0 and below 256 TB.
pub open spec fn frame_ok(f: usize) -> bool {
    f % 4096 == 0 && 0 < f < 0x1_0000_0000_0000
}

/// No two entries of the level-1 table point to the same level-2 table.
pub open spec fn root_unique(w: MapWalk, root: usize) -> bool {
    forall|i: int, j: int|
        0 <= i < TABLE_ENTRIES && 0 <= j < TABLE_ENTRIES && i != j && #[trigger] w.mem[root][i] != 0
            && #[trigger] w.mem[root][j] != 0 ==> entry_base(w.mem[root][i]) != entry_base(
            w.mem[root][j],
        )
}

/// No two entries of the level-2 tables point to the same level-3 table.
pub open spec fn l2_unique(w: MapWalk) -> bool {
    forall|b1: usize, i: int, b2: usize, j: int|
        w.l2.contains(b1) && w.l2.contains(b2) && 0 <= i < TABLE_ENTRIES && 0 <= j < TABLE_ENTRIES && (
        b1 != b2 || i != j) && #[trigger] w.mem[b1][i] != 0 && #[trigger] w.mem[b2][j] != 0
            ==> entry_base(w.mem[b1][i]) != entry_base(w.mem[b2][j])
}

/// The process's tables form a tree under the level-1 table at `root`:
/// its entries point to level-2 tables, whose entries point to level-3
/// tables, each table pointed to once, whose entries are empty or valid;
/// the three levels are distinct frames. The spare frames are distinct,
/// hold no table, and can be pointed to.
pub open spec fn walk_wf(w: MapWalk, root: usize) -> bool {
    &&& root_unique(w, root)
    &&& l2_unique(w)
    &&& forall|b: usize| #[trigger] w.mem.dom().contains(b) ==> w.mem[b].len() == TABLE_ENTRIES
    &&& root != 0
    &&& w.mem.dom().contains(root)
    &&& !w.l2.contains(root) && !w.l3.contains(root)
    &&& w.l2.disjoint(w.l3)
    &&& forall|b: usize| #[trigger] w.l2.contains(b) ==> w.mem.dom().contains(b)
    &&& forall|b: usize| #[trigger] w.l3.contains(b) ==> w.mem.dom().contains(b)
    &&& forall|i: int| 0 <= i < TABLE_ENTRIES ==> entry_ok(#[trigger] w.mem[root][i], w.l2)
    &&& forall|b: usize, j: int|
        w.l2.contains(b) && 0 <= j < TABLE_ENTRIES ==> entry_ok(#[trigger] w.mem[b][j], w.l3)
    &&& forall|b: usize, j: int|
        w.l3.contains(b) && 0 <= j < TABLE_ENTRIES ==> leaf_ok(#[trigger] w.mem[b][j])
    &&& forall|k: int| 0 <= k < w.spare.len() ==> !w.mem.dom().contains(#[trigger] w.spare[k])
    &&& forall|k: int| 0 <= k < w.spare.len() ==> frame_ok(#[trigger] w.spare[k])
    &&& forall|k1: int, k2: int|
        0 <= k1 < k2 < w.spare.len() ==> #[trigger] w.spare[k1] != #[trigger] w.spare[k2]
}

/// Takes a spare frame as a new, empty table.
pub open spec fn take_table(w: MapWalk) -> (MapWalk, usize) {
    let f = w.spare.last();
    (MapWalk { mem: w.mem.insert(f, zero_table()), spare: w.spare.drop_last(), ..w }, f)
}

/// Sets entry `i` of the table at `b`.
pub open spec fn set_entry(w: MapWalk, b: usize, i: int, e: u64) -> MapWalk {
    MapWalk { mem: w.mem.insert(b, w.mem[b].update(i, e)), ..w }
}

/// Maps the page at offset `v` to the frame `p`: finds or makes its level-2
/// and level-3 tables (new tables get entries with `top` flags), then sets
/// its page entry with `leaf` flags, unless it is already mapped.
pub open spec fn spec_map_step(w: MapWalk, root: usize, v: u64, p: u64, top: u64, leaf: u64) -> (
    MapWalk,
    bool,
) {
    let e1 = spec_read(w.mem, root, idx1(v));
    let (w1, pd) = if e1 == 0 {
        let (t, f) = take_table(w);
        (set_entry(MapWalk { l2: t.l2.insert(f), ..t }, root, idx1(v), f as u64 | top), f)
    } else {
        (w, entry_base(e1))
    };
    let e2 = spec_read(w1.mem, pd, idx2(v));
    let (w2, pt) = if e2 == 0 {
        let (t, f) = take_table(w1);
        (set_entry(MapWalk { l3: t.l3.insert(f), ..t }, pd, idx2(v), f as u64 | top), f)
    } else {
        (w1, entry_base(e2))
    };
    let e3 = spec_read(w2.mem, pt, idx3(v));
    if e3 & 1 != 0 {
        (w2, false)
    } else {
        let w3 = set_entry(w2, pt, idx3(v), (p & PHYS_ADDR_MASK) | leaf);
        (MapWalk { flushes: w3.flushes.push(v as usize), ..w3 }, true)
    }
}

/// Maps the pages from the `i`-th on, one after the other, to `phys`;
/// stops at the first page that is already mapped.
pub open spec fn spec_map_from(
    w: MapWalk,
    root: usize,
    v0: u64,
    phys: Seq<usize>,
    i: int,
    top: u64,
    leaf: u64,
) -> (MapWalk, bool)
    decreases phys.len() - i,
{
    if i < 0 || i >= phys.len() {
        (w, true)
    } else {
        let (w2, ok) = spec_map_step(
            w,
            root,
            (v0 + i * 4096) as u64,
            (phys[i] as u64) & PAGE_BASE_MASK,
            top,
            leaf,
        );
        if !ok {
            (w2, false)
        } else {
            spec_map_from(w2, root, v0, phys, i + 1, top, leaf)
        }
    }
}

/// The spare frames one step takes for the page at `v`: a level-2 and a
/// level-3 table where it has no level-2 table, a level-3 table where it
/// has a level-2 table but no level-3 table, none otherwise.
pub open spec fn step_frames(w: MapWalk, root: usize, v: u64) -> int {
    let e1 = spec_read(w.mem, root, idx1(v));
    if e1 == 0 {
        2
    } else if spec_read(w.mem, entry_base(e1), idx2(v)) == 0 {
        1
    } else {
        0
    }
}

/// The spare frames that mapping the pages from the `i`-th on takes.
pub open spec fn spec_frames_needed(
    w: MapWalk,
    root: usize,
    v0: u64,
    phys: Seq<usize>,
    i: int,
    top: u64,
    leaf: u64,
) -> int
    decreases phys.len() - i,
{
    if i < 0 || i >= phys.len() {
        0
    } else {
        let v = (v0 + i * 4096) as u64;
        let (w2, ok) = spec_map_step(w, root, v, (phys[i] as u64) & PAGE_BASE_MASK, top, leaf);
        step_frames(w, root, v) + if ok {
            spec_frames_needed(w2, root, v0, phys, i + 1, top, leaf)
        } else {
            0
        }
    }
}

/// Mapping pages takes at most two spare frames a page.
pub proof fn lemma_frames_needed_bounds(
    w: MapWalk,
    root: usize,
    v0: u64,
    phys: Seq<usize>,
    i: int,
    top: u64,
    leaf: u64,
)
    requires
        0 <= i <= phys.len(),
    ensures
        0 <= spec_frames_needed(w, root, v0, phys, i, top, leaf) <= 2 * (phys.len() - i),
    decreases phys.len() - i,
{
    if i < phys.len() {
        let v = (v0 + i * 4096) as u64;
        let (w2, ok) = spec_map_step(w, root, v, (phys[i] as u64) & PAGE_BASE_MASK, top, leaf);
        lemma_frames_needed_bounds(w2, root, v0, phys, i + 1, top, leaf);
    }
}

/// A user address space.
pub struct MMUMapping {
    /// The level-1 table (loaded into TTBR1)
    pub ttbr1: u64,
    /// Pages mapped with `map_pages` and not unmapped
    pub mapped_pages_count: usize,
    /// Frames that hold paging structures
    pub tlb_page_count: usize,
    pub tables: PageTables,
    /// Zeroed frames for new tables (taken from the end)
    pub spare_frames: Vec<usize>,
    /// Pages whose TLB entries are to be invalidated, in order
    pub tlb_flushes: Vec<usize>,
    /// The level-2 and level-3 tables of the address space
    pub l2: Ghost<Set<usize>>,
    pub l3: Ghost<Set<usize>>,
}

impl MMUMapping {
    /// The tables as a `MapWalk`.
    pub open spec fn walk(&self) -> MapWalk {
        MapWalk {
            mem: self.tables.mem(),
            spare: self.spare_frames@,
            l2: self.l2@,
            l3: self.l3@,
            flushes: self.tlb_flushes@,
        }
    }

    pub open spec fn root(&self) -> usize {
        self.ttbr1 as usize
    }

    pub open spec fn wf(&self) -> bool {
        walk_wf(self.walk(), self.root())
    }

    /// An address space with no tables yet.
    pub fn new() -> (m: Self)
        ensures
            m.ttbr1 == 0,
            m.mapped_pages_count == 0 && m.tlb_page_count == 0,
            m.tables.mem() == Map::<usize, Seq<u64>>::empty(),
            m.spare_frames@.len() == 0 && m.tlb_flushes@.len() == 0,
    {
        MMUMapping {
            ttbr1: 0,
            mapped_pages_count: 0,
            tlb_page_count: 0,
            tables: PageTables::new(),
            spare_frames: Vec::new(),
            tlb_flushes: Vec::new(),
            l2: Ghost(Set::empty()),
            l3: Ghost(Set::empty()),
        }
    }

    pub fn mapped_pages_count(&self) -> (n: usize)
        ensures
            n == self.mapped_pages_count,
    {
        self.mapped_pages_count
    }

    pub fn tlb_page_count(&self) -> (n: usize)
        ensures
            n == self.tlb_page_count,
    {
        self.tlb_page_count
    }

    /// Adds a zeroed frame to the spare frames.
    pub fn add_spare_frame(&mut self, f: usize)
        requires
            old(self).wf(),
            frame_ok(f),
            !old(self).tables.mem().dom().contains(f),
            !old(self).spare_frames@.contains(f),
        ensures
            final(self).wf(),
            final(self).spare_frames@ == old(self).spare_frames@.push(f),
            final(self).tables.mem() == old(self).tables.mem(),
            final(self).ttbr1 == old(self).ttbr1,
            final(self).mapped_pages_count == old(self).mapped_pages_count,
            final(self).tlb_page_count == old(self).tlb_page_count,
            final(self).tlb_flushes@ == old(self).tlb_flushes@,
            final(self).l2@ == old(self).l2@ && final(self).l3@ == old(self).l3@,
    {
        let ghost w0 = self.walk();
        self.spare_frames.push(f);
        proof {
            let w = self.walk();
            assert(w.spare == w0.spare.push(f));
            assert forall|k: int| 0 <= k < w.spare.len() implies !w.mem.dom().contains(
                #[trigger] w.spare[k],
            ) by {
                if k < w0.spare.len() {
                    assert(w.spare[k] == w0.spare[k]);
                    assert(!w0.mem.dom().contains(w0.spare[k]));
                }
            }
            assert forall|k: int| 0 <= k < w.spare.len() implies frame_ok(#[trigger] w.spare[k]) by {
                if k < w0.spare.len() {
                    assert(w.spare[k] == w0.spare[k]);
                    assert(frame_ok(w0.spare[k]));
                }
            }
            assert forall|k1: int, k2: int|
                0 <= k1 < k2 < w.spare.len() implies #[trigger] w.spare[k1] != #[trigger] w.spare[k2] by {
                if k2 == w0.spare.len() {
                    assert(w0.spare[k1] == w.spare[k1]);
                    assert(w0.spare.contains(w0.spare[k1]));
                } else {
                    assert(w0.spare[k1] != w0.spare[k2]);
                }
            }
        }
    }

    /// Makes the zeroed frame `l1` the level-1 table of a new address space.
    pub fn init(&mut self, l1: usize)
        requires
            old(self).tables.wf(),
            old(self).tables.mem() == Map::<usize, Seq<u64>>::empty(),
            old(self).spare_frames@.len() == 0,
            frame_ok(l1),
            old(self).tlb_page_count < usize::MAX,
        ensures
            final(self).wf(),
            final(self).ttbr1 == l1 as u64,
            final(self).tlb_page_count == old(self).tlb_page_count + 1,
            final(self).tables.mem() == Map::<usize, Seq<u64>>::empty().insert(l1, zero_table()),
            final(self).spare_frames@.len() == 0,
            final(self).mapped_pages_count == old(self).mapped_pages_count,
    {
        self.ttbr1 = l1 as u64;
        self.l2 = Ghost(Set::empty());
        self.l3 = Ghost(Set::empty());
        self.tables.add_zeroed(l1);
        self.tlb_page_count = self.tlb_page_count + 1;
        proof {
            let m = self.tables.mem();
            assert(self.root() == l1);
            assert forall|i: int| 0 <= i < TABLE_ENTRIES implies entry_ok(#[trigger] m[l1][i], self.l2@) by {
                assert(m[l1] == zero_table());
            }
        }
    }
}

/// Facts about the bits of offsets and entries that the walk uses.
pub proof fn lemma_walk_bits(v: u64, f: u64, p: u64, leaf: u64)
    by (bit_vector)
    ensures
        (v >> 30u64) & 0x1FF < 512 && (v >> 21u64) & 0x1FF < 512 && (v >> 12u64) & 0x1FF < 512,
        f % 4096 == 0 && 0 < f < 0x1_0000_0000_0000 ==> (f | 0x743) & 0xFFFF_FFFF_F000 == f && (f
            | 0x743) & 0xFFFF_FFFF_F000 != 0 && (f | 0x743) != 0,
        leaf & 0xFFFF_FFFF_F000 == 0 && leaf & 3 == 3 ==> ((p & 0xFFFF_FFFF_F000) | leaf)
            & 0xFFFF_FFFF_F000 == p & 0xFFFF_FFFF_F000 && ((p & 0xFFFF_FFFF_F000) | leaf) & 3 != 0
            && ((p & 0xFFFF_FFFF_F000) | leaf) & 1 != 0,
        p & 0xFFFF_FFFF_F000 != 0 ==> p != 0,
        p & 3 != 0 ==> p != 0,
        (p & 0xFFFF_FFFF_FFFF_F000) & 0xFFFF_FFFF_F000 == p & 0xFFFF_FFFF_F000,
        (p & 0xFFFF_FFFF_F000) & 0xFFFF_FFFF_F000 == p & 0xFFFF_FFFF_F000,
        0u64 & 3 == 0,
        0u64 & 1 == 0,
        p & 3 == 0 ==> p & 1 == 0,
{
}

/// Page flags keep the frame bits free and mark a valid page.
pub open spec fn leaf_flags_ok(leaf: u64) -> bool {
    leaf & PHYS_ADDR_MASK == 0 && leaf & 3 == 3
}

pub proof fn lemma_flags_shape(w: bool, x: bool)
    ensures
        table_flags() == 0x743,
        leaf_flags_ok(spec_page_flags(w, x)),
{
    let ro: u64 = if !w {
        0x80
    } else {
        0
    };
    let xn: u64 = if !x {
        0x40_0000_0000_0000
    } else {
        0
    };
    assert((ro == 0 || ro == 0x80) && (xn == 0 || xn == 0x40_0000_0000_0000) ==> (3u64 | 0x40u64
        | 0x300u64 | 0x400u64 | ro | xn) & 0xFFFF_FFFF_F000 == 0 && (3u64 | 0x40u64 | 0x300u64
        | 0x400u64 | ro | xn) & 3 == 3 && 3u64 | 0x40u64 | 0x300u64 | 0x400u64 == 0x743)
        by (bit_vector);
}

/// A user address offset: within the process's part of the address space.
pub open spec fn user_addr(v: u64) -> bool {
    v <= MAX_USER_OFFSET
}

/// The reads along `u`'s path give the same entries in `m2` as in `m1`.
pub open spec fn path_same(m1: Map<usize, Seq<u64>>, m2: Map<usize, Seq<u64>>, root: usize, u: u64) -> bool {
    let e1 = spec_read(m1, root, idx1(u));
    let e2 = spec_read(m1, entry_base(e1), idx2(u));
    &&& spec_read(m2, root, idx1(u)) == e1
    &&& spec_read(m2, entry_base(e1), idx2(u)) == e2
    &&& spec_read(m2, entry_base(e2), idx3(u)) == spec_read(m1, entry_base(e2), idx3(u))
}

/// On a present path in a well-formed tree, the directory and the page
/// table are tables of their levels.
proof fn lemma_present_path(w: MapWalk, root: usize, u: u64)
    requires
        walk_wf(w, root),
        user_addr(u),
        spec_translate(w.mem, root, u) is Some,
    ensures
        ({
            let e1 = spec_read(w.mem, root, idx1(u));
            let e2 = spec_read(w.mem, entry_base(e1), idx2(u));
            &&& e1 != 0 && w.l2.contains(entry_base(e1))
            &&& e2 != 0 && w.l3.contains(entry_base(e2))
            &&& spec_read(w.mem, entry_base(e2), idx3(u)) & 3 != 0
        }),
{
    lemma_walk_bits(u, 0, 0, 0);
    let e1 = spec_read(w.mem, root, idx1(u));
    lemma_walk_bits(u, 0, e1, 0);
    assert(e1 == w.mem[root][idx1(u)]);
    assert(entry_ok(w.mem[root][idx1(u)], w.l2));
    let pd = entry_base(e1);
    let e2 = spec_read(w.mem, pd, idx2(u));
    lemma_walk_bits(u, 0, e2, 0);
    assert(e2 == w.mem[pd][idx2(u)]);
    assert(entry_ok(w.mem[pd][idx2(u)], w.l3));
}

/// The first stage of a step: the page directory of `v`.
pub open spec fn step_pd(w: MapWalk, root: usize, v: u64, top: u64) -> (MapWalk, usize) {
    let e1 = spec_read(w.mem, root, idx1(v));
    if e1 == 0 {
        let (t, f) = take_table(w);
        (set_entry(MapWalk { l2: t.l2.insert(f), ..t }, root, idx1(v), f as u64 | top), f)
    } else {
        (w, entry_base(e1))
    }
}

/// The second stage of a step: the page table of `v`.
pub open spec fn step_pt(w1: MapWalk, pd: usize, v: u64, top: u64) -> (MapWalk, usize) {
    let e2 = spec_read(w1.mem, pd, idx2(v));
    if e2 == 0 {
        let (t, f) = take_table(w1);
        (set_entry(MapWalk { l3: t.l3.insert(f), ..t }, pd, idx2(v), f as u64 | top), f)
    } else {
        (w1, entry_base(e2))
    }
}

proof fn lemma_step_stages(w: MapWalk, root: usize, v: u64, p: u64, top: u64, leaf: u64)
    ensures
        ({
            let (w1, pd) = step_pd(w, root, v, top);
            let (w2, pt) = step_pt(w1, pd, v, top);
            let e3 = spec_read(w2.mem, pt, idx3(v));
            spec_map_step(w, root, v, p, top, leaf) == if e3 & 1 != 0 {
                (w2, false)
            } else {
                let w3 = set_entry(w2, pt, idx3(v), (p & PHYS_ADDR_MASK) | leaf);
                (MapWalk { flushes: w3.flushes.push(v as usize), ..w3 }, true)
            }
        }),
{
}

/// Taking a spare frame keeps the spare frames fresh and distinct.
proof fn lemma_take_table(w: MapWalk, root: usize)
    requires
        walk_wf(w, root),
        w.spare.len() >= 1,
    ensures
        ({
            let (t, f) = take_table(w);
            &&& !w.mem.dom().contains(f) && frame_ok(f)
            &&& t.spare == w.spare.drop_last()
            &&& forall|k: int| 0 <= k < t.spare.len() ==> !t.mem.dom().contains(#[trigger] t.spare[k])
            &&& forall|k: int| 0 <= k < t.spare.len() ==> frame_ok(#[trigger] t.spare[k])
            &&& forall|k1: int, k2: int|
                0 <= k1 < k2 < t.spare.len() ==> #[trigger] t.spare[k1] != #[trigger] t.spare[k2]
        }),
{
    let (t, f) = take_table(w);
    let n = w.spare.len() - 1;
    assert(f == w.spare[n]);
    assert forall|k: int| 0 <= k < t.spare.len() implies !t.mem.dom().contains(#[trigger] t.spare[k]) by {
        assert(t.spare[k] == w.spare[k]);
        assert(w.spare[k] != w.spare[n]);
        assert(!w.mem.dom().contains(w.spare[k]));
    }
    assert forall|k: int| 0 <= k < t.spare.len() implies frame_ok(#[trigger] t.spare[k]) by {
        assert(t.spare[k] == w.spare[k]);
        assert(frame_ok(w.spare[k]));
    }
    assert forall|k1: int, k2: int|
        0 <= k1 < k2 < t.spare.len() implies #[trigger] t.spare[k1] != #[trigger] t.spare[k2] by {
        assert(t.spare[k1] == w.spare[k1] && t.spare[k2] == w.spare[k2]);
        assert(w.spare[k1] != w.spare[k2]);
    }
}

/// The first stage keeps the tree well formed, leaves `v`'s PDPT0 entry
/// present and pointing to its page directory, and keeps every present
/// user path.
proof fn lemma_step_pd(w: MapWalk, root: usize, v: u64)
    requires
        walk_wf(w, root),
        user_addr(v),
        spec_read(w.mem, root, idx1(v)) == 0 ==> w.spare.len() >= 1,
    ensures
        ({
            let (w1, pd) = step_pd(w, root, v, 0x743);
            let e1 = spec_read(w.mem, root, idx1(v));
            &&& walk_wf(w1, root)
            &&& w1.l2.contains(pd)
            &&& w1.l3 == w.l3
            &&& spec_read(w1.mem, root, idx1(v)) & PHYS_ADDR_MASK != 0
            &&& entry_base(spec_read(w1.mem, root, idx1(v))) == pd
            &&& w1.spare.len() == w.spare.len() - if e1 == 0 { 1int } else { 0int }
            &&& e1 == 0 ==> spec_read(w1.mem, pd, idx2(v)) == 0
            &&& e1 != 0 ==> w1 == w && pd == entry_base(e1)
            &&& w1.flushes == w.flushes
            &&& forall|u: u64|
                user_addr(u) && #[trigger] spec_translate(w.mem, root, u) is Some ==> path_same(
                    w.mem,
                    w1.mem,
                    root,
                    u,
                )
            &&& forall|b: usize| #[trigger] w.mem.dom().contains(b) ==> w1.mem.dom().contains(b)
            &&& forall|b: usize| b != root && w.mem.dom().contains(b) ==> #[trigger] w1.mem[b] == w.mem[b]
        }),
{
    lemma_walk_bits(v, 0, 0, 0);
    let e1 = spec_read(w.mem, root, idx1(v));
    assert(e1 == w.mem[root][idx1(v)]);
    assert(entry_ok(w.mem[root][idx1(v)], w.l2));
    if e1 == 0 {
        lemma_take_table(w, root);
        let (t, f) = take_table(w);
        lemma_walk_bits(v, f as u64, 0, 0);
        let (w1, pd) = step_pd(w, root, v, 0x743);
        let i1 = idx1(v);
        assert(w1.mem == t.mem.insert(root, t.mem[root].update(i1, f as u64 | 0x743)));
        assert(t.mem[root] == w.mem[root]);
        assert(w1.mem[root][i1] == f as u64 | 0x743);
        assert(entry_base(f as u64 | 0x743) == f);
        assert(f != root);
        assert(w1.mem[f] == zero_table());
        // the tree stays well formed
        assert forall|i: int| 0 <= i < TABLE_ENTRIES implies entry_ok(
            #[trigger] w1.mem[root][i],
            w1.l2,
        ) by {
            if i != i1 {
                assert(w1.mem[root][i] == w.mem[root][i]);
                assert(entry_ok(w.mem[root][i], w.l2));
            }
        }
        assert forall|b: usize, j: int|
            w1.l2.contains(b) && 0 <= j < TABLE_ENTRIES implies entry_ok(
            #[trigger] w1.mem[b][j],
            w1.l3,
        ) by {
            if b == f {
                assert(w1.mem[b] == zero_table());
            } else {
                assert(w.l2.contains(b));
                assert(w1.mem[b] == w.mem[b]);
                assert(entry_ok(w.mem[b][j], w.l3));
            }
        }
        assert forall|b: usize| #[trigger] w1.mem.dom().contains(b) implies w1.mem[b].len()
            == TABLE_ENTRIES by {
            if b != root && b != f {
                assert(w1.mem[b] == w.mem[b]);
            }
        }
        assert forall|b: usize, j: int|
            w1.l3.contains(b) && 0 <= j < TABLE_ENTRIES implies leaf_ok(#[trigger] w1.mem[b][j]) by {
            assert(w1.mem[b] == w.mem[b]);
            assert(leaf_ok(w.mem[b][j]));
        }
        assert forall|u: u64|
            user_addr(u) && #[trigger] spec_translate(w.mem, root, u) is Some implies path_same(
            w.mem,
            w1.mem,
            root,
            u,
        ) by {
            lemma_present_path(w, root, u);
            lemma_walk_bits(u, 0, 0, 0);
            let eu = spec_read(w.mem, root, idx1(u));
            assert(eu == w.mem[root][idx1(u)]);
            assert(idx1(u) != i1);
            let pdu = entry_base(eu);
            let e2u = spec_read(w.mem, pdu, idx2(u));
            assert(w1.mem[pdu] == w.mem[pdu]);
            assert(w1.mem[entry_base(e2u)] == w.mem[entry_base(e2u)]);
        }
    }
}

/// The second stage keeps the tree well formed, leaves `v`'s page
/// directory entry present and pointing to its page table, and keeps every
/// present user path.
proof fn lemma_step_pt(w1: MapWalk, root: usize, pd: usize, v: u64)
    requires
        walk_wf(w1, root),
        user_addr(v),
        w1.l2.contains(pd),
        spec_read(w1.mem, pd, idx2(v)) == 0 ==> w1.spare.len() >= 1,
    ensures
        ({
            let (w2, pt) = step_pt(w1, pd, v, 0x743);
            &&& walk_wf(w2, root)
            &&& w2.l3.contains(pt)
            &&& w2.l2 == w1.l2
            &&& spec_read(w2.mem, pd, idx2(v)) & PHYS_ADDR_MASK != 0
            &&& entry_base(spec_read(w2.mem, pd, idx2(v))) == pt
            &&& w2.spare.len() == w1.spare.len() - if spec_read(w1.mem, pd, idx2(v)) == 0 {
                1int
            } else {
                0int
            }
            &&& w2.flushes == w1.flushes
            &&& forall|u: u64|
                user_addr(u) && #[trigger] spec_translate(w1.mem, root, u) is Some ==> path_same(
                    w1.mem,
                    w2.mem,
                    root,
                    u,
                )
            &&& w2.mem[root] == w1.mem[root]
            &&& forall|b: usize| #[trigger] w1.mem.dom().contains(b) ==> w2.mem.dom().contains(b)
        }),
{
    lemma_walk_bits(v, 0, 0, 0);
    let e2 = spec_read(w1.mem, pd, idx2(v));
    assert(e2 == w1.mem[pd][idx2(v)]);
    assert(entry_ok(w1.mem[pd][idx2(v)], w1.l3));
    if e2 == 0 {
        lemma_take_table(w1, root);
        let (t, f) = take_table(w1);
        lemma_walk_bits(v, f as u64, 0, 0);
        let (w2, pt) = step_pt(w1, pd, v, 0x743);
        let i2 = idx2(v);
        assert(w2.mem == t.mem.insert(pd, t.mem[pd].update(i2, f as u64 | 0x743)));
        assert(t.mem[pd] == w1.mem[pd]);
        assert(entry_base(f as u64 | 0x743) == f);
        assert(pd != root);
        assert forall|i: int| 0 <= i < TABLE_ENTRIES implies entry_ok(
            #[trigger] w2.mem[root][i],
            w2.l2,
        ) by {
            assert(w2.mem[root][i] == w1.mem[root][i]);
            assert(entry_ok(w1.mem[root][i], w1.l2));
        }
        assert forall|b: usize, j: int|
            w2.l2.contains(b) && 0 <= j < TABLE_ENTRIES implies entry_ok(
            #[trigger] w2.mem[b][j],
            w2.l3,
        ) by {
            assert(b != f);
            assert(entry_ok(w1.mem[b][j], w1.l3));
            if b != pd || j != i2 {
                assert(w2.mem[b][j] == w1.mem[b][j]);
            }
        }
        assert forall|b: usize| #[trigger] w2.mem.dom().contains(b) implies w2.mem[b].len()
            == TABLE_ENTRIES by {
            if b != pd && b != f {
                assert(w2.mem[b] == w1.mem[b]);
            }
        }
        assert forall|b: usize, j: int|
            w2.l3.contains(b) && 0 <= j < TABLE_ENTRIES implies leaf_ok(#[trigger] w2.mem[b][j]) by {
            if b == f {
                assert(w2.mem[b] == zero_table());
            } else {
                assert(w2.mem[b] == w1.mem[b]);
                assert(leaf_ok(w1.mem[b][j]));
            }
        }
        assert forall|u: u64|
            user_addr(u) && #[trigger] spec_translate(w1.mem, root, u) is Some implies path_same(
            w1.mem,
            w2.mem,
            root,
            u,
        ) by {
            lemma_present_path(w1, root, u);
            let eu = spec_read(w1.mem, root, idx1(u));
            let pdu = entry_base(eu);
            let e2u = spec_read(w1.mem, pdu, idx2(u));
            let ptu = entry_base(e2u);
            assert(w2.mem[root] == w1.mem[root]);
            assert(e2u == w1.mem[pdu][idx2(u)]);
            if pdu == pd {
                assert(idx2(u) != i2);
            }
            assert(ptu != pd && ptu != f);
            assert(w2.mem[ptu] == w1.mem[ptu]);
        }
    }
}

/// One step keeps the tree well formed and every present user path; when
/// it maps `v`, `v` translates to `p`'s frame.
proof fn lemma_map_step(w: MapWalk, root: usize, v: u64, p: u64, leaf: u64)
    requires
        walk_wf(w, root),
        user_addr(v),
        w.spare.len() >= step_frames(w, root, v),
        leaf_flags_ok(leaf),
    ensures
        ({
            let (w2, ok) = spec_map_step(w, root, v, p, 0x743, leaf);
            &&& walk_wf(w2, root)
            &&& w2.spare.len() == w.spare.len() - step_frames(w, root, v)
            &&& ok ==> spec_translate(w2.mem, root, v) == Some(p & PHYS_ADDR_MASK)
            &&& forall|u: u64|
                user_addr(u) && #[trigger] spec_translate(w.mem, root, u) is Some
                    ==> spec_translate(w2.mem, root, u) == spec_translate(w.mem, root, u)
        }),
{
    lemma_step_stages(w, root, v, p, 0x743, leaf);
    lemma_step_pd(w, root, v);
    let (w1, pd) = step_pd(w, root, v, 0x743);
    lemma_step_pt(w1, root, pd, v);
    let (w2, pt) = step_pt(w1, pd, v, 0x743);
    lemma_walk_bits(v, 0, p, leaf);
    let e3 = spec_read(w2.mem, pt, idx3(v));
    assert forall|u: u64|
        user_addr(u) && #[trigger] spec_translate(w.mem, root, u) is Some implies spec_translate(
        w2.mem,
        root,
        u,
    ) == spec_translate(w.mem, root, u) by {
        assert(path_same(w.mem, w1.mem, root, u));
        assert(spec_translate(w1.mem, root, u) == spec_translate(w.mem, root, u));
        assert(path_same(w1.mem, w2.mem, root, u));
    }
    if e3 & 1 == 0 {
        let i3 = idx3(v);
        let val = (p & PHYS_ADDR_MASK) | leaf;
        let w3 = set_entry(w2, pt, i3, val);
        let w4 = MapWalk { flushes: w3.flushes.push(v as usize), ..w3 };
        assert(pt != root);
        assert(!w2.l2.contains(pt));
        assert(w4.mem == w2.mem.insert(pt, w2.mem[pt].update(i3, val)));
        assert forall|i: int| 0 <= i < TABLE_ENTRIES implies entry_ok(
            #[trigger] w4.mem[root][i],
            w4.l2,
        ) by {
            assert(w4.mem[root][i] == w2.mem[root][i]);
            assert(entry_ok(w2.mem[root][i], w2.l2));
        }
        assert forall|b: usize, j: int|
            w4.l2.contains(b) && 0 <= j < TABLE_ENTRIES implies entry_ok(
            #[trigger] w4.mem[b][j],
            w4.l3,
        ) by {
            assert(b != pt);
            assert(w4.mem[b] == w2.mem[b]);
            assert(entry_ok(w2.mem[b][j], w2.l3));
        }
        assert forall|b: usize| #[trigger] w4.mem.dom().contains(b) implies w4.mem[b].len()
            == TABLE_ENTRIES by {
            if b != pt {
                assert(w4.mem[b] == w2.mem[b]);
            }
        }
        assert forall|b: usize, j: int|
            w4.l3.contains(b) && 0 <= j < TABLE_ENTRIES implies leaf_ok(#[trigger] w4.mem[b][j]) by {
            if b != pt || j != i3 {
                assert(w4.mem[b][j] == w2.mem[b][j]);
                assert(leaf_ok(w2.mem[b][j]));
            }
        }
        // v now translates to p's frame
        assert(spec_read(w4.mem, root, idx1(v)) == spec_read(w2.mem, root, idx1(v)));
        assert(w4.mem[pd] == w2.mem[pd]);
        assert(spec_read(w4.mem, pd, idx2(v)) == spec_read(w2.mem, pd, idx2(v)));
        assert(spec_read(w4.mem, pt, i3) == val);
        assert forall|u: u64|
            user_addr(u) && #[trigger] spec_translate(w2.mem, root, u) is Some implies spec_translate(
            w4.mem,
            root,
            u,
        ) == spec_translate(w2.mem, root, u) by {
            lemma_present_path(w2, root, u);
            let eu = spec_read(w2.mem, root, idx1(u));
            let pdu = entry_base(eu);
            let e2u = spec_read(w2.mem, pdu, idx2(u));
            let ptu = entry_base(e2u);
            assert(pdu != pt);
            assert(w4.mem[pdu] == w2.mem[pdu]);
            assert(leaf_ok(w2.mem[ptu][idx3(u)]));
            lemma_walk_bits(u, 0, w2.mem[ptu][idx3(u)], 0);
            if ptu == pt {
                assert(idx3(u) != i3);
            }
        }
    }
}

/// Mapping a page that is not mapped succeeds.
proof fn lemma_step_free_ok(w: MapWalk, root: usize, v: u64, p: u64, leaf: u64)
    requires
        walk_wf(w, root),
        user_addr(v),
        w.spare.len() >= step_frames(w, root, v),
        spec_translate(w.mem, root, v) is None,
    ensures
        spec_map_step(w, root, v, p, 0x743, leaf).1,
{
    lemma_step_stages(w, root, v, p, 0x743, leaf);
    lemma_walk_bits(v, 0, 0, 0);
    let (w1, pd) = step_pd(w, root, v, 0x743);
    let (w2, pt) = step_pt(w1, pd, v, 0x743);
    let e1 = spec_read(w.mem, root, idx1(v));
    assert(e1 == w.mem[root][idx1(v)]);
    assert(entry_ok(w.mem[root][idx1(v)], w.l2));
    if e1 == 0 {
        lemma_take_table(w, root);
        let (t, f1) = take_table(w);
        lemma_walk_bits(v, f1 as u64, 0, 0);
        assert(f1 != root);
        assert(w1.mem[f1] == zero_table());
        assert(spec_read(w1.mem, pd, idx2(v)) == 0);
        let (t2, f2) = take_table(w1);
        assert(w1.spare.len() == w.spare.len() - 1);
        assert(f2 == w.spare[w.spare.len() - 2]);
        assert(f1 == w.spare[w.spare.len() - 1]);
        assert(f2 != f1);
        assert(w2.mem[f2] == zero_table());
        assert(spec_read(w2.mem, pt, idx3(v)) == 0);
    } else {
        lemma_walk_bits(v, 0, e1, 0);
        assert(w1 == w);
        let e2 = spec_read(w.mem, pd, idx2(v));
        assert(w.l2.contains(pd));
        assert(e2 == w.mem[pd][idx2(v)]);
        assert(entry_ok(w.mem[pd][idx2(v)], w.l3));
        if e2 == 0 {
            lemma_take_table(w, root);
            let (t2, f2) = take_table(w);
            assert(f2 != pd);
            assert(w2.mem[f2] == zero_table());
            assert(spec_read(w2.mem, pt, idx3(v)) == 0);
            } else {
            lemma_walk_bits(v, 0, e2, 0);
            assert(w2 == w);
            assert(w.l3.contains(pt));
            let e3 = w.mem[pt][idx3(v)];
            assert(leaf_ok(e3));
            lemma_walk_bits(v, 0, e3, 0);
        }
    }
}

/// Finding or making `v`'s level-2 table leaves an unmapped page unmapped.
proof fn lemma_pd_keeps_unmapped(w: MapWalk, root: usize, v: u64, u: u64)
    requires
        walk_wf(w, root),
        user_addr(v),
        user_addr(u),
        spec_read(w.mem, root, idx1(v)) == 0 ==> w.spare.len() >= 1,
        spec_translate(w.mem, root, u) is None,
    ensures
        spec_translate(step_pd(w, root, v, 0x743).0.mem, root, u) is None,
{
    lemma_walk_bits(v, 0, 0, 0);
    lemma_walk_bits(u, 0, 0, 0);
    let (w1, pd) = step_pd(w, root, v, 0x743);
    let e1v = spec_read(w.mem, root, idx1(v));
    if e1v == 0 {
        lemma_take_table(w, root);
        let (t, f) = take_table(w);
        lemma_walk_bits(v, f as u64, 0, 0);
        assert(f != root);
        assert(w1.mem[f] == zero_table());
        let e1u = spec_read(w.mem, root, idx1(u));
        assert(e1u == w.mem[root][idx1(u)]);
        assert(entry_ok(w.mem[root][idx1(u)], w.l2));
        if idx1(u) == idx1(v) {
            assert(spec_read(w1.mem, root, idx1(u)) == f as u64 | 0x743);
            assert(spec_read(w1.mem, f, idx2(u)) == 0);
        } else {
            assert(spec_read(w1.mem, root, idx1(u)) == e1u);
            if e1u & PHYS_ADDR_MASK != 0 {
                let pdu = entry_base(e1u);
                lemma_walk_bits(u, 0, e1u, 0);
                assert(w.l2.contains(pdu));
                assert(pdu != f && pdu != root);
                assert(w1.mem[pdu] == w.mem[pdu]);
                let e2u = spec_read(w.mem, pdu, idx2(u));
                assert(e2u == w.mem[pdu][idx2(u)]);
                assert(entry_ok(w.mem[pdu][idx2(u)], w.l3));
                if e2u & PHYS_ADDR_MASK != 0 {
                    let ptu = entry_base(e2u);
                    lemma_walk_bits(u, 0, e2u, 0);
                    assert(w.l3.contains(ptu));
                    assert(ptu != f && ptu != root);
                    assert(w1.mem[ptu] == w.mem[ptu]);
                }
            }
        }
    }
}

/// Finding or making `v`'s level-3 table leaves an unmapped page unmapped.
proof fn lemma_pt_keeps_unmapped(w1: MapWalk, root: usize, pd: usize, v: u64, u: u64)
    requires
        walk_wf(w1, root),
        user_addr(v),
        user_addr(u),
        w1.l2.contains(pd),
        spec_read(w1.mem, pd, idx2(v)) == 0 ==> w1.spare.len() >= 1,
        spec_translate(w1.mem, root, u) is None,
    ensures
        spec_translate(step_pt(w1, pd, v, 0x743).0.mem, root, u) is None,
{
    lemma_walk_bits(v, 0, 0, 0);
    lemma_walk_bits(u, 0, 0, 0);
    let (w2, pt) = step_pt(w1, pd, v, 0x743);
    let e2v = spec_read(w1.mem, pd, idx2(v));
    if e2v == 0 {
        lemma_take_table(w1, root);
        let (t, f) = take_table(w1);
        lemma_walk_bits(v, f as u64, 0, 0);
        assert(pd != root);
        assert(f != pd && f != root);
        assert(w2.mem[f] == zero_table());
        assert(w2.mem[root] == w1.mem[root]);
        let e1u = spec_read(w1.mem, root, idx1(u));
        assert(e1u == w1.mem[root][idx1(u)]);
        assert(entry_ok(w1.mem[root][idx1(u)], w1.l2));
        assert(spec_read(w2.mem, root, idx1(u)) == e1u);
        if e1u & PHYS_ADDR_MASK != 0 {
            let pdu = entry_base(e1u);
            lemma_walk_bits(u, 0, e1u, 0);
            assert(w1.l2.contains(pdu));
            assert(pdu != f);
            if pdu == pd && idx2(u) == idx2(v) {
                assert(spec_read(w2.mem, pdu, idx2(u)) == f as u64 | 0x743);
                assert(spec_read(w2.mem, f, idx3(u)) == 0);
            } else {
                let e2u = spec_read(w1.mem, pdu, idx2(u));
                assert(e2u == w1.mem[pdu][idx2(u)]);
                assert(spec_read(w2.mem, pdu, idx2(u)) == e2u);
                assert(entry_ok(w1.mem[pdu][idx2(u)], w1.l3));
                if e2u & PHYS_ADDR_MASK != 0 {
                    let ptu = entry_base(e2u);
                    lemma_walk_bits(u, 0, e2u, 0);
                    assert(w1.l3.contains(ptu));
                    assert(ptu != f && ptu != pd);
                    assert(w2.mem[ptu] == w1.mem[ptu]);
                }
            }
        }
    }
}

/// Mapping the page at `v` leaves every other unmapped page unmapped.
proof fn lemma_step_keeps_unmapped(w: MapWalk, root: usize, v: u64, p: u64, leaf: u64, u: u64)
    requires
        walk_wf(w, root),
        user_addr(v),
        user_addr(u),
        w.spare.len() >= step_frames(w, root, v),
        leaf_flags_ok(leaf),
        spec_translate(w.mem, root, u) is None,
        idx1(u) != idx1(v) || idx2(u) != idx2(v) || idx3(u) != idx3(v),
    ensures
        spec_translate(spec_map_step(w, root, v, p, 0x743, leaf).0.mem, root, u) is None,
{
    lemma_step_stages(w, root, v, p, 0x743, leaf);
    lemma_walk_bits(v, 0, 0, 0);
    lemma_walk_bits(u, 0, 0, 0);
    lemma_step_pd(w, root, v);
    let (w1, pd) = step_pd(w, root, v, 0x743);
    lemma_pd_keeps_unmapped(w, root, v, u);
    lemma_step_pt(w1, root, pd, v);
    let (w2, pt) = step_pt(w1, pd, v, 0x743);
    lemma_pt_keeps_unmapped(w1, root, pd, v, u);
    let e3 = spec_read(w2.mem, pt, idx3(v));
    if e3 & 1 == 0 {
        let val = (p & PHYS_ADDR_MASK) | leaf;
        let w3 = set_entry(w2, pt, idx3(v), val);
        assert(w2.l3.contains(pt));
        assert(pt != root && !w2.l2.contains(pt));
        let e1u = spec_read(w2.mem, root, idx1(u));
        assert(e1u == w2.mem[root][idx1(u)]);
        assert(entry_ok(w2.mem[root][idx1(u)], w2.l2));
        assert(spec_read(w3.mem, root, idx1(u)) == e1u);
        if e1u & PHYS_ADDR_MASK != 0 {
            let pdu = entry_base(e1u);
            lemma_walk_bits(u, 0, e1u, 0);
            assert(w2.l2.contains(pdu));
            assert(pdu != pt);
            assert(w3.mem[pdu] == w2.mem[pdu]);
            let e2u = spec_read(w2.mem, pdu, idx2(u));
            assert(e2u == w2.mem[pdu][idx2(u)]);
            assert(entry_ok(w2.mem[pdu][idx2(u)], w2.l3));
            if e2u & PHYS_ADDR_MASK != 0 {
                let ptu = entry_base(e2u);
                lemma_walk_bits(u, 0, e2u, 0);
                if ptu == pt && idx3(u) == idx3(v) {
                    // the level-2 entries of u and v point to the same table,
                    // so they are one entry; so are the level-1 entries
                    let e1v = spec_read(w2.mem, root, idx1(v));
                    let e2v = spec_read(w2.mem, pd, idx2(v));
                    assert(e1v == w2.mem[root][idx1(v)]);
                    assert(e2v == w2.mem[pd][idx2(v)]);
                    assert(w2.mem[pdu][idx2(u)] != 0);
                    assert(w2.mem[pd][idx2(v)] != 0);
                    assert(pdu == pd && idx2(u) == idx2(v));
                    assert(w2.mem[root][idx1(u)] != 0);
                    assert(w2.mem[root][idx1(v)] != 0);
                    assert(idx1(u) == idx1(v));
                    assert(false);
                }
                if ptu == pt {
                    assert(spec_read(w3.mem, ptu, idx3(u)) == spec_read(w2.mem, ptu, idx3(u)));
                } else {
                    assert(w3.mem[ptu] == w2.mem[ptu]);
                }
            }
        }
    }
}

/// Two different pages of a run have different table indices.
proof fn lemma_page_indices_differ(v0: u64, i: int, j: int)
    requires
        v0 % 4096 == 0,
        0 <= i < j,
        v0 + j * 4096 <= MAX_USER_OFFSET,
    ensures
        ({
            let a = (v0 + i * 4096) as u64;
            let b = (v0 + j * 4096) as u64;
            idx1(a) != idx1(b) || idx2(a) != idx2(b) || idx3(a) != idx3(b)
        }),
{
    let a = (v0 + i * 4096) as u64;
    let b = (v0 + j * 4096) as u64;
    assert(a / 4096 != b / 4096) by (nonlinear_arith)
        requires
            v0 % 4096 == 0,
            0 <= i < j,
            a == v0 + i * 4096,
            b == v0 + j * 4096,
    ;
    assert(a < 0x80_0000_0000 && b < 0x80_0000_0000 && a / 4096 != b / 4096 ==> ((a >> 30u64) & 0x1FF
        != (b >> 30u64) & 0x1FF || (a >> 21u64) & 0x1FF != (b >> 21u64) & 0x1FF || (a >> 12u64) & 0x1FF
        != (b >> 12u64) & 0x1FF)) by (bit_vector);
}

/// Mapping a run of unmapped pages succeeds.
proof fn lemma_map_from_free(w: MapWalk, root: usize, v0: u64, phys: Seq<usize>, i: int, leaf: u64)
    requires
        walk_wf(w, root),
        0 <= i <= phys.len(),
        v0 % 4096 == 0,
        v0 + phys.len() * 4096 <= MAX_USER_OFFSET + 1,
        w.spare.len() >= spec_frames_needed(w, root, v0, phys, i, 0x743, leaf),
        leaf_flags_ok(leaf),
        forall|j: int| i <= j < phys.len() ==> #[trigger] spec_translate(w.mem, root, (v0 + j * 4096) as u64) is None,
    ensures
        spec_map_from(w, root, v0, phys, i, 0x743, leaf).1,
    decreases phys.len() - i,
{
    if i < phys.len() {
        let v = (v0 + i * 4096) as u64;
        let p = (phys[i] as u64) & PAGE_BASE_MASK;
        lemma_frames_needed_bounds(spec_map_step(w, root, v, p, 0x743, leaf).0, root, v0, phys, i + 1, 0x743, leaf);
        lemma_step_free_ok(w, root, v, p, leaf);
        lemma_map_step(w, root, v, p, leaf);
        let (w1, ok1) = spec_map_step(w, root, v, p, 0x743, leaf);
        assert forall|j: int| i + 1 <= j < phys.len() implies #[trigger] spec_translate(
            w1.mem,
            root,
            (v0 + j * 4096) as u64,
        ) is None by {
            let u = (v0 + j * 4096) as u64;
            lemma_page_indices_differ(v0, i, j);
            lemma_step_keeps_unmapped(w, root, v, p, leaf, u);
        }
        lemma_map_from_free(w1, root, v0, phys, i + 1, leaf);
    }
}

/// Mapping a run of pages none of which is mapped succeeds (and each page
/// then translates to its frame, by `lemma_map_pages_translate`): the
/// mapping fails only where a page is mapped already.
pub proof fn lemma_map_unmapped_succeeds(m: MMUMapping, v0: u64, phys: Seq<usize>, writeable: bool, exec: bool)
    requires
        m.wf(),
        v0 % 4096 == 0,
        v0 + phys.len() * 4096 <= MAX_USER_OFFSET + 1,
        m.spare_frames@.len() >= spec_frames_needed(
            m.walk(),
            m.root(),
            v0,
            phys,
            0,
            table_flags(),
            spec_page_flags(writeable, exec),
        ),
        forall|j: int|
            0 <= j < phys.len() ==> #[trigger] spec_translate(m.tables.mem(), m.root(), (v0 + j * 4096) as u64)
                is None,
    ensures
        spec_map_from(m.walk(), m.root(), v0, phys, 0, table_flags(), spec_page_flags(writeable, exec)).1,
{
    lemma_flags_shape(writeable, exec);
    lemma_map_from_free(m.walk(), m.root(), v0, phys, 0, spec_page_flags(writeable, exec));
}

/// Mapping pages one after the other keeps the tree well formed; when it
/// maps them all, each translates to its frame.
proof fn lemma_map_from(w: MapWalk, root: usize, v0: u64, phys: Seq<usize>, i: int, leaf: u64)
    requires
        walk_wf(w, root),
        0 <= i <= phys.len(),
        v0 + phys.len() * 4096 <= MAX_USER_OFFSET + 1,
        w.spare.len() >= spec_frames_needed(w, root, v0, phys, i, 0x743, leaf),
        leaf_flags_ok(leaf),
        forall|j: int|
            0 <= j < i ==> #[trigger] spec_translate(w.mem, root, (v0 + j * 4096) as u64) == Some(
                (phys[j] as u64) & PHYS_ADDR_MASK,
            ),
    ensures
        ({
            let (w2, ok) = spec_map_from(w, root, v0, phys, i, 0x743, leaf);
            &&& walk_wf(w2, root)
            &&& ok ==> forall|j: int|
                0 <= j < phys.len() ==> #[trigger] spec_translate(
                    w2.mem,
                    root,
                    (v0 + j * 4096) as u64,
                ) == Some((phys[j] as u64) & PHYS_ADDR_MASK)
            &&& forall|u: u64|
                user_addr(u) && #[trigger] spec_translate(w.mem, root, u) is Some ==> spec_translate(
                    w2.mem,
                    root,
                    u,
                ) == spec_translate(w.mem, root, u)
        }),
    decreases phys.len() - i,
{
    if i < phys.len() {
        let v = (v0 + i * 4096) as u64;
        let p = (phys[i] as u64) & PAGE_BASE_MASK;
        lemma_frames_needed_bounds(spec_map_step(w, root, v, p, 0x743, leaf).0, root, v0, phys, i + 1, 0x743, leaf);
        lemma_map_step(w, root, v, p, leaf);
        let (w1, ok1) = spec_map_step(w, root, v, p, 0x743, leaf);
        lemma_walk_bits(0, 0, phys[i] as u64, 0);
        if ok1 {
            assert forall|j: int| 0 <= j < i + 1 implies #[trigger] spec_translate(
                w1.mem,
                root,
                (v0 + j * 4096) as u64,
            ) == Some((phys[j] as u64) & PHYS_ADDR_MASK) by {
                if j < i {
                    let u = (v0 + j * 4096) as u64;
                    assert(spec_translate(w.mem, root, u) is Some);
                }
            }
            lemma_map_from(w1, root, v0, phys, i + 1, leaf);
        }
    }
}

/// Mapping pages and then translating them gives back their frames: after
/// `map_pages` maps the pages from `v0` to `phys`, each page translates to
/// its frame, the tables stay a well-formed tree, and every page mapped
/// before, the one where a mapping stops among them, keeps its frame.
pub proof fn lemma_map_pages_translate(w: MapWalk, root: usize, v0: u64, phys: Seq<usize>, leaf: u64)
    requires
        walk_wf(w, root),
        v0 + phys.len() * 4096 <= MAX_USER_OFFSET + 1,
        w.spare.len() >= spec_frames_needed(w, root, v0, phys, 0, 0x743, leaf),
        leaf_flags_ok(leaf),
    ensures
        ({
            let (w2, ok) = spec_map_from(w, root, v0, phys, 0, 0x743, leaf);
            &&& walk_wf(w2, root)
            &&& ok ==> forall|j: int|
                0 <= j < phys.len() ==> #[trigger] spec_translate(
                    w2.mem,
                    root,
                    (v0 + j * 4096) as u64,
                ) == Some((phys[j] as u64) & PHYS_ADDR_MASK)
            &&& forall|u: u64|
                user_addr(u) && #[trigger] spec_translate(w.mem, root, u) is Some ==> spec_translate(
                    w2.mem,
                    root,
                    u,
                ) == spec_translate(w.mem, root, u)
        }),
{
    lemma_map_from(w, root, v0, phys, 0, leaf);
}


/// The tables after the page at offset `v` is unmapped: its page entry
/// cleared, when it was mapped.
pub open spec fn spec_unmap_mem(m: Map<usize, Seq<u64>>, root: usize, v: u64) -> Map<usize, Seq<u64>> {
    if spec_translate(m, root, v) is None {
        m
    } else {
        let e1 = spec_read(m, root, idx1(v));
        let pt = entry_base(spec_read(m, entry_base(e1), idx2(v)));
        m.insert(pt, m[pt].update(idx3(v), 0))
    }
}

/// Unmaps the pages from the `i`-th on, one after the other: the tables
/// afterwards and how many of the pages were mapped when their turn came.
pub open spec fn spec_unmap_from(m: Map<usize, Seq<u64>>, root: usize, v0: u64, n: nat, i: nat) -> (
    Map<usize, Seq<u64>>,
    nat,
)
    decreases n - i,
{
    if i >= n {
        (m, 0)
    } else {
        let v = (v0 + i * 4096) as u64;
        let c: nat = if spec_translate(m, root, v) is Some {
            1
        } else {
            0
        };
        let (m2, k) = spec_unmap_from(spec_unmap_mem(m, root, v), root, v0, n, i + 1);
        (m2, k + c)
    }
}

/// The physical address of `v` on the page a translation gives.
pub open spec fn phys_at(t: Option<u64>, v: u64) -> Option<usize> {
    match t {
        Some(f) => Some((f | (v & 0xFFF)) as usize),
        None => None,
    }
}

/// The physical page of a translation, as a frame address.
pub open spec fn opt_frame(t: Option<u64>) -> Option<usize> {
    match t {
        Some(x) => Some(x as usize),
        None => None,
    }
}

/// The offset of a user address.
pub open spec fn user_offset(virt_addr: usize) -> u64 {
    ((virt_addr as u64) - MIN_VIRTUAL_USER) as u64
}

impl MMUMapping {
    /// Maps the pages from the user address `virt_addr` (rounded down to a
    /// page) to the frames `phys_addrs`, writable and executable as asked.
    /// Fails for an address outside the process's part, and stops at the
    /// first page that is already mapped (that mapping stays as it was).
    pub fn map_pages(&mut self, virt_addr: usize, phys_addrs: &[usize], writeable: bool, exec: bool) -> (ok: bool)
        requires
            old(self).wf(),
            MIN_VIRTUAL_USER <= virt_addr as u64 <= MAX_VIRTUAL ==> (user_offset(virt_addr)
                & PAGE_BASE_MASK) + phys_addrs@.len() * 4096 <= MAX_USER_OFFSET + 1
                && old(self).spare_frames@.len() >= spec_frames_needed(
                old(self).walk(),
                old(self).root(),
                user_offset(virt_addr) & PAGE_BASE_MASK,
                phys_addrs@,
                0,
                table_flags(),
                spec_page_flags(writeable, exec),
            ),
            old(self).mapped_pages_count + phys_addrs@.len() <= usize::MAX,
            old(self).tlb_page_count + 2 * phys_addrs@.len() <= usize::MAX,
        ensures
            final(self).wf(),
            final(self).ttbr1 == old(self).ttbr1,
            ({
                if !(MIN_VIRTUAL_USER <= virt_addr as u64 <= MAX_VIRTUAL) {
                    !ok && *final(self) == *old(self)
                } else {
                    let (w, r) = spec_map_from(
                        old(self).walk(),
                        old(self).root(),
                        user_offset(virt_addr) & PAGE_BASE_MASK,
                        phys_addrs@,
                        0,
                        table_flags(),
                        spec_page_flags(writeable, exec),
                    );
                    &&& ok == r
                    &&& final(self).walk() == w
                    &&& final(self).mapped_pages_count == old(self).mapped_pages_count + if r {
                        phys_addrs@.len() as int
                    } else {
                        0
                    }
                    &&& final(self).tlb_page_count == old(self).tlb_page_count + (
                    old(self).spare_frames@.len() - w.spare.len())
                }
            }),
    {
        let va = virt_addr as u64;
        if va < MIN_VIRTUAL_USER || va > MAX_VIRTUAL {
            return false;
        }
        let v0: u64 = (va - MIN_VIRTUAL_USER) & PAGE_BASE_MASK;
        let top: u64 = PGENT_TBL_DESC | PGENT_USERMODE | PGENT_INSH | PGENT_ACCESS;
        let leaf = page_flags(writeable, exec);
        proof {
            lemma_flags_shape(writeable, exec);
        }
        let root = self.ttbr1 as usize;
        let n = phys_addrs.len();
        let ghost w_start = self.walk();
        let mut vaddr: u64 = v0;
        let mut i: usize = 0;
        while i < n
            invariant
                i <= n,
                n == phys_addrs@.len(),
                vaddr == v0 + i * 4096,
                v0 == user_offset(virt_addr) & PAGE_BASE_MASK,
                MIN_VIRTUAL_USER <= virt_addr as u64 <= MAX_VIRTUAL,
                v0 + n * 4096 <= MAX_USER_OFFSET + 1,
                root == self.root(),
                self.ttbr1 == old(self).ttbr1,
                self.wf(),
                top == 0x743,
                table_flags() == 0x743,
                leaf == spec_page_flags(writeable, exec),
                leaf_flags_ok(leaf),
                w_start == old(self).walk(),
                spec_map_from(self.walk(), root, v0, phys_addrs@, i as int, 0x743, leaf)
                    == spec_map_from(w_start, root, v0, phys_addrs@, 0, 0x743, leaf),
                self.spare_frames@.len() >= spec_frames_needed(self.walk(), root, v0, phys_addrs@, i as int, 0x743, leaf),
                self.spare_frames@.len() <= old(self).spare_frames@.len(),
                self.spare_frames@.len() + 2 * i >= old(self).spare_frames@.len(),
                self.tlb_page_count == old(self).tlb_page_count + (old(self).spare_frames@.len()
                    - self.spare_frames@.len()),
                old(self).tlb_page_count + 2 * n <= usize::MAX,
                self.mapped_pages_count == old(self).mapped_pages_count,
                old(self).mapped_pages_count + n <= usize::MAX,
            decreases n - i,
        {
            let v = vaddr;
            let ghost w0 = self.walk();
            proof {
                lemma_walk_bits(v, 0, phys_addrs@[i as int] as u64, leaf);
                lemma_frames_needed_bounds(
                    spec_map_step(w0, root, v, (phys_addrs@[i as int] as u64) & PAGE_BASE_MASK, 0x743, leaf).0,
                    root,
                    v0,
                    phys_addrs@,
                    i + 1,
                    0x743,
                    leaf,
                );
                lemma_map_step(w0, root, v, (phys_addrs@[i as int] as u64) & PAGE_BASE_MASK, leaf);
                lemma_step_stages(w0, root, v, (phys_addrs@[i as int] as u64) & PAGE_BASE_MASK, 0x743, leaf);
                lemma_step_pd(w0, root, v);
            }
            let i1 = ((v >> 30u64) & 0x1FF) as usize;
            let i2 = ((v >> 21u64) & 0x1FF) as usize;
            let i3 = ((v >> 12u64) & 0x1FF) as usize;
            let paddr: u64 = (phys_addrs[i] as u64) & PAGE_BASE_MASK;
            // the level-2 table
            let e1 = self.tables.read(root, i1);
            let pd: usize;
            if e1 == 0 {
                let f = self.spare_frames.pop().unwrap();
                self.tlb_page_count = self.tlb_page_count + 1;
                self.tables.add_zeroed(f);
                self.l2 = Ghost(self.l2@.insert(f));
                self.tables.write(root, i1, f as u64 | top);
                pd = f;
            } else {
                pd = (e1 & PHYS_ADDR_MASK) as usize;
            }
            assert(self.walk() == step_pd(w0, root, v, 0x743).0 && pd == step_pd(w0, root, v, 0x743).1);
            let ghost w1 = self.walk();
            proof {
                lemma_step_pt(w1, root, pd, v);
            }
            // the level-3 table
            let e2 = self.tables.read(pd, i2);
            let pt: usize;
            if e2 == 0 {
                let f = self.spare_frames.pop().unwrap();
                self.tlb_page_count = self.tlb_page_count + 1;
                self.tables.add_zeroed(f);
                self.l3 = Ghost(self.l3@.insert(f));
                self.tables.write(pd, i2, f as u64 | top);
                pt = f;
            } else {
                pt = (e2 & PHYS_ADDR_MASK) as usize;
            }
            assert(self.walk() == step_pt(w1, pd, v, 0x743).0 && pt == step_pt(w1, pd, v, 0x743).1);
            // the page
            let e3 = self.tables.read(pt, i3);
            assert(v == (v0 + i * 4096) as u64);
            assert(paddr == (phys_addrs@[i as int] as u64) & PAGE_BASE_MASK);
            if e3 & 1 != 0 {
                assert(spec_map_step(w0, root, v, paddr, 0x743, leaf) == (self.walk(), false));
                assert(spec_map_from(w0, root, v0, phys_addrs@, i as int, 0x743, leaf) == (
                self.walk(),
                false,
                ));
                return false;
            }
            self.tables.write(pt, i3, (paddr & PHYS_ADDR_MASK) | leaf);
            self.tlb_flushes.push(v as usize);
            assert(spec_map_step(w0, root, v, paddr, 0x743, leaf) == (self.walk(), true));
            assert(spec_map_from(w0, root, v0, phys_addrs@, i as int, 0x743, leaf) == spec_map_from(
                self.walk(),
                root,
                v0,
                phys_addrs@,
                i + 1,
                0x743,
                leaf,
            ));
            vaddr = vaddr + 4096;
            i = i + 1;
        }
        self.mapped_pages_count = self.mapped_pages_count + n;
        true
    }

    /// The physical address a user address maps to in this address space
    /// (its page's frame and its offset in the page).
    pub fn virt_to_phys(&self, virt_addr: usize) -> (r: Option<usize>)
        requires
            virt_addr as u64 >= MIN_VIRTUAL_USER,
        ensures
            r == phys_at(spec_translate(self.tables.mem(), self.root(), user_offset(virt_addr)), user_offset(virt_addr)),
    {
        let v = (virt_addr as u64) - MIN_VIRTUAL_USER;
        proof {
            lemma_walk_bits(v, 0, 0, 0);
        }
        let i1 = ((v >> 30u64) & 0x1FF) as usize;
        let i2 = ((v >> 21u64) & 0x1FF) as usize;
        let i3 = ((v >> 12u64) & 0x1FF) as usize;
        if self.ttbr1 == 0 {
            return None;
        }
        let l2 = self.tables.read(self.ttbr1 as usize, i1) & PHYS_ADDR_MASK;
        if l2 == 0 {
            return None;
        }
        let l3 = self.tables.read(l2 as usize, i2) & PHYS_ADDR_MASK;
        if l3 == 0 {
            return None;
        }
        let pg = self.tables.read(l3 as usize, i3);
        if pg & PGENT_PG_DESC == 0 {
            return None;
        }
        Some(((pg & PHYS_ADDR_MASK) | (v & 0xFFF)) as usize)
    }

    /// The entries on the way to a user address (level 1, 2 and 3) when it
    /// is mapped to a frame; `None` when a table or the page is missing.
    pub fn log_mapping(&self, vaddr: usize) -> (r: Option<(u64, u64, u64)>)
        requires
            vaddr as u64 >= MIN_VIRTUAL_USER,
        ensures
            ({
                let v = user_offset(vaddr);
                let m = self.tables.mem();
                let e1 = spec_read(m, self.root(), idx1(v));
                let e2 = spec_read(m, entry_base(e1), idx2(v));
                let e3 = spec_read(m, entry_base(e2), idx3(v));
                r == if self.ttbr1 != 0 && e1 & PHYS_ADDR_MASK != 0 && e2 & PHYS_ADDR_MASK != 0 && e3
                    & PHYS_ADDR_MASK != 0 {
                    Some((e1, e2, e3))
                } else {
                    None::<(u64, u64, u64)>
                }
            }),
    {
        let v = (vaddr as u64) - MIN_VIRTUAL_USER;
        proof {
            lemma_walk_bits(v, 0, 0, 0);
        }
        let i1 = ((v >> 30u64) & 0x1FF) as usize;
        let i2 = ((v >> 21u64) & 0x1FF) as usize;
        let i3 = ((v >> 12u64) & 0x1FF) as usize;
        if self.ttbr1 == 0 {
            return None;
        }
        let e1 = self.tables.read(self.ttbr1 as usize, i1);
        if e1 & PHYS_ADDR_MASK == 0 {
            return None;
        }
        let e2 = self.tables.read((e1 & PHYS_ADDR_MASK) as usize, i2);
        if e2 & PHYS_ADDR_MASK == 0 {
            return None;
        }
        let e3 = self.tables.read((e2 & PHYS_ADDR_MASK) as usize, i3);
        if e3 & PHYS_ADDR_MASK == 0 {
            return None;
        }
        Some((e1, e2, e3))
    }

    /// Unmaps the page at a user address: clears its page entry and returns
    /// the frame it mapped (the caller frees it), or `None` when it is not
    /// mapped.
    pub fn unmap_page(&mut self, virt_addr: usize) -> (r: Option<usize>)
        requires
            old(self).wf(),
            MIN_VIRTUAL_USER <= virt_addr as u64,
            user_addr(user_offset(virt_addr)),
            spec_translate(old(self).tables.mem(), old(self).root(), user_offset(virt_addr)) is Some
                ==> old(self).mapped_pages_count > 0,
        ensures
            final(self).wf(),
            r == opt_frame(spec_translate(old(self).tables.mem(), old(self).root(), user_offset(virt_addr))),
            r is None ==> *final(self) == *old(self),
            final(self).tables.mem() == spec_unmap_mem(
                old(self).tables.mem(),
                old(self).root(),
                user_offset(virt_addr),
            ),
            final(self).l2@ == old(self).l2@ && final(self).l3@ == old(self).l3@,
            r is Some ==> {
                &&& spec_translate(final(self).tables.mem(), final(self).root(), user_offset(virt_addr))
                    is None
                &&& final(self).mapped_pages_count == old(self).mapped_pages_count - 1
                &&& final(self).tlb_flushes@ == old(self).tlb_flushes@.push(virt_addr)
                &&& final(self).spare_frames@ == old(self).spare_frames@
                &&& final(self).tlb_page_count == old(self).tlb_page_count
            },
            final(self).ttbr1 == old(self).ttbr1,
    {
        let v = (virt_addr as u64) - MIN_VIRTUAL_USER;
        proof {
            lemma_walk_bits(v, 0, 0, 0);
        }
        let i1 = ((v >> 30u64) & 0x1FF) as usize;
        let i2 = ((v >> 21u64) & 0x1FF) as usize;
        let i3 = ((v >> 12u64) & 0x1FF) as usize;
        if self.ttbr1 == 0 {
            return None;
        }
        let e1 = self.tables.read(self.ttbr1 as usize, i1);
        if e1 & PHYS_ADDR_MASK == 0 {
            return None;
        }
        let e2 = self.tables.read((e1 & PHYS_ADDR_MASK) as usize, i2);
        if e2 & PHYS_ADDR_MASK == 0 {
            return None;
        }
        let pt = (e2 & PHYS_ADDR_MASK) as usize;
        let e3 = self.tables.read(pt, i3);
        if e3 & PGENT_PG_DESC == 0 {
            return None;
        }
        let ghost w0 = self.walk();
        let root = self.ttbr1 as usize;
        proof {
            lemma_present_path(w0, root, v);
        }
        self.tables.write(pt, i3, 0);
        self.tlb_flushes.push(virt_addr);
        self.mapped_pages_count = self.mapped_pages_count - 1;
        proof {
            lemma_unmap_mem(w0, root, v, v);
            assert(self.walk() == MapWalk { mem: spec_unmap_mem(w0.mem, root, v), flushes: self.tlb_flushes@, ..w0 });
        }
        Some((e3 & PHYS_ADDR_MASK) as usize)
    }

    /// Unmaps `num_pages` pages from the user address `virt_addr` and returns
    /// how many of them were mapped (the caller frees their frames).
    pub fn unmap_pages(&mut self, virt_addr: usize, num_pages: usize) -> (r: usize)
        requires
            old(self).wf(),
            MIN_VIRTUAL_USER <= virt_addr as u64,
            user_offset(virt_addr) + num_pages * 4096 <= MAX_USER_OFFSET + 1,
            spec_unmap_from(
                old(self).tables.mem(),
                old(self).root(),
                user_offset(virt_addr),
                num_pages as nat,
                0,
            ).1 <= old(self).mapped_pages_count,
        ensures
            final(self).wf(),
            ({
                let (m, c) = spec_unmap_from(
                    old(self).tables.mem(),
                    old(self).root(),
                    user_offset(virt_addr),
                    num_pages as nat,
                    0,
                );
                &&& final(self).tables.mem() == m
                &&& r == c
                &&& final(self).mapped_pages_count == old(self).mapped_pages_count - c
            }),
            final(self).ttbr1 == old(self).ttbr1,
            final(self).spare_frames@ == old(self).spare_frames@,
            final(self).tlb_page_count == old(self).tlb_page_count,
    {
        let root = self.ttbr1 as usize;
        let ghost o0 = user_offset(virt_addr);
        let ghost m0 = self.tables.mem();
        let ghost total = spec_unmap_from(m0, root, o0, num_pages as nat, 0);
        let mut unmapped: usize = 0;
        let mut i: usize = 0;
        while i < num_pages
            invariant
                i <= num_pages,
                MIN_VIRTUAL_USER <= virt_addr as u64,
                o0 == user_offset(virt_addr),
                o0 + num_pages * 4096 <= MAX_USER_OFFSET + 1,
                root == self.root(),
                self.ttbr1 == old(self).ttbr1,
                self.spare_frames@ == old(self).spare_frames@,
                self.tlb_page_count == old(self).tlb_page_count,
                self.wf(),
                total == spec_unmap_from(m0, root, o0, num_pages as nat, 0),
                total.1 <= old(self).mapped_pages_count,
                ({
                    let (mr, cr) = spec_unmap_from(self.tables.mem(), root, o0, num_pages as nat, i as nat);
                    mr == total.0 && cr + unmapped == total.1
                }),
                self.mapped_pages_count == old(self).mapped_pages_count - unmapped,
            decreases num_pages - i,
        {
            let v = virt_addr + i * PAGE_SIZE;
            assert(user_offset(v) == (o0 + i * 4096) as u64);
            let r = self.unmap_page(v);
            if r.is_some() {
                unmapped = unmapped + 1;
            }
            i = i + 1;
        }
        unmapped
    }
}

/// Unmapping a page never makes another address mapped, and keeps the tree
/// well formed.
proof fn lemma_unmap_mem(w: MapWalk, root: usize, v: u64, u: u64)
    requires
        walk_wf(w, root),
        user_addr(v),
        user_addr(u),
    ensures
        walk_wf(MapWalk { mem: spec_unmap_mem(w.mem, root, v), ..w }, root),
        spec_translate(w.mem, root, u) is None ==> spec_translate(
            spec_unmap_mem(w.mem, root, v),
            root,
            u,
        ) is None,
        spec_translate(spec_unmap_mem(w.mem, root, v), root, v) is None,
{
    if spec_translate(w.mem, root, v) is Some {
        lemma_present_path(w, root, v);
        lemma_walk_bits(v, 0, 0, 0);
        lemma_walk_bits(u, 0, 0, 0);
        let e1 = spec_read(w.mem, root, idx1(v));
        let pd = entry_base(e1);
        let pt = entry_base(spec_read(w.mem, pd, idx2(v)));
        let m2 = spec_unmap_mem(w.mem, root, v);
        let w2 = MapWalk { mem: m2, ..w };
        assert(pt != root && !w.l2.contains(pt));
        assert(m2.dom() =~= w.mem.dom());
        assert forall|i: int| 0 <= i < TABLE_ENTRIES implies entry_ok(
            #[trigger] w2.mem[root][i],
            w2.l2,
        ) by {
            assert(w2.mem[root][i] == w.mem[root][i]);
            assert(entry_ok(w.mem[root][i], w.l2));
        }
        assert forall|b: usize, j: int|
            w2.l2.contains(b) && 0 <= j < TABLE_ENTRIES implies entry_ok(
            #[trigger] w2.mem[b][j],
            w2.l3,
        ) by {
            assert(w2.mem[b] == w.mem[b]);
            assert(entry_ok(w.mem[b][j], w.l3));
        }
        assert forall|b: usize, j: int|
            w2.l3.contains(b) && 0 <= j < TABLE_ENTRIES implies leaf_ok(#[trigger] w2.mem[b][j]) by {
            if b != pt || j != idx3(v) {
                assert(w2.mem[b][j] == w.mem[b][j]);
                assert(leaf_ok(w.mem[b][j]));
            }
        }
        assert forall|b: usize| #[trigger] w2.mem.dom().contains(b) implies w2.mem[b].len()
            == TABLE_ENTRIES by {
            if b != pt {
                assert(w2.mem[b] == w.mem[b]);
            }
        }
        assert forall|k: int| 0 <= k < w2.spare.len() implies !w2.mem.dom().contains(
            #[trigger] w2.spare[k],
        ) by {
            assert(!w.mem.dom().contains(w.spare[k]));
        }
        assert(m2[pd] == w.mem[pd]);
        if spec_translate(w.mem, root, u) is None {
            let f1 = spec_read(w.mem, root, idx1(u));
            assert(f1 == w.mem[root][idx1(u)]);
            assert(entry_ok(w.mem[root][idx1(u)], w.l2));
            assert(spec_read(m2, root, idx1(u)) == f1);
            if f1 & PHYS_ADDR_MASK != 0 {
                let pdu = entry_base(f1);
                let f2 = spec_read(w.mem, pdu, idx2(u));
                assert(w.l2.contains(pdu));
                assert(m2[pdu] == w.mem[pdu]);
            }
        }
    }
}

/// Unmapping the page at `v` leaves every other mapped page as it was.
proof fn lemma_unmap_keeps_mapped(w: MapWalk, root: usize, v: u64, u: u64)
    requires
        walk_wf(w, root),
        user_addr(v),
        user_addr(u),
        spec_translate(w.mem, root, u) is Some,
        idx1(u) != idx1(v) || idx2(u) != idx2(v) || idx3(u) != idx3(v),
    ensures
        spec_translate(spec_unmap_mem(w.mem, root, v), root, u) == spec_translate(w.mem, root, u),
{
    if spec_translate(w.mem, root, v) is Some {
        lemma_present_path(w, root, v);
        lemma_present_path(w, root, u);
        lemma_walk_bits(v, 0, 0, 0);
        lemma_walk_bits(u, 0, 0, 0);
        let e1 = spec_read(w.mem, root, idx1(v));
        let pd = entry_base(e1);
        let e2 = spec_read(w.mem, pd, idx2(v));
        let pt = entry_base(e2);
        let m2 = spec_unmap_mem(w.mem, root, v);
        assert(pt != root && !w.l2.contains(pt));
        let e1u = spec_read(w.mem, root, idx1(u));
        let pdu = entry_base(e1u);
        let e2u = spec_read(w.mem, pdu, idx2(u));
        let ptu = entry_base(e2u);
        assert(m2[root] == w.mem[root]);
        assert(m2[pdu] == w.mem[pdu]);
        assert(e1 == w.mem[root][idx1(v)] && e1u == w.mem[root][idx1(u)]);
        assert(e2 == w.mem[pd][idx2(v)] && e2u == w.mem[pdu][idx2(u)]);
        if ptu == pt {
            assert(pdu == pd && idx2(u) == idx2(v));
            assert(idx1(u) == idx1(v));
            assert(idx3(u) != idx3(v));
            assert(spec_read(m2, ptu, idx3(u)) == spec_read(w.mem, ptu, idx3(u)));
        } else {
            assert(m2[ptu] == w.mem[ptu]);
        }
    }
}

/// Unmapping a run of mapped pages counts each of them.
proof fn lemma_unmap_from_count(w: MapWalk, root: usize, v0: u64, n: nat, i: nat)
    requires
        walk_wf(w, root),
        v0 % 4096 == 0,
        v0 + n * 4096 <= MAX_USER_OFFSET + 1,
        i <= n,
        forall|j: int| i <= j < n ==> #[trigger] spec_translate(w.mem, root, (v0 + j * 4096) as u64) is Some,
    ensures
        spec_unmap_from(w.mem, root, v0, n, i).1 == n - i,
    decreases n - i,
{
    if i < n {
        let v = (v0 + i * 4096) as u64;
        lemma_unmap_mem(w, root, v, v);
        let w2 = MapWalk { mem: spec_unmap_mem(w.mem, root, v), ..w };
        assert forall|j: int| i + 1 <= j < n implies #[trigger] spec_translate(
            w2.mem,
            root,
            (v0 + j * 4096) as u64,
        ) is Some by {
            let u = (v0 + j * 4096) as u64;
            lemma_page_indices_differ(v0, i as int, j);
            lemma_unmap_keeps_mapped(w, root, v, u);
        }
        lemma_unmap_from_count(w2, root, v0, n, i + 1);
    }
}

/// Unmapping what was just mapped undoes it: after `map_pages` maps `n`
/// pages, unmapping the same `n` pages finds all of them mapped (it
/// returns `n`) and leaves each of them unmapped.
pub proof fn lemma_map_then_unmap(w: MapWalk, root: usize, v0: u64, phys: Seq<usize>, leaf: u64)
    requires
        walk_wf(w, root),
        v0 % 4096 == 0,
        v0 + phys.len() * 4096 <= MAX_USER_OFFSET + 1,
        w.spare.len() >= spec_frames_needed(w, root, v0, phys, 0, 0x743, leaf),
        leaf_flags_ok(leaf),
        spec_map_from(w, root, v0, phys, 0, 0x743, leaf).1,
    ensures
        ({
            let w2 = spec_map_from(w, root, v0, phys, 0, 0x743, leaf).0;
            let (m, c) = spec_unmap_from(w2.mem, root, v0, phys.len(), 0);
            &&& c == phys.len()
            &&& forall|j: int|
                0 <= j < phys.len() ==> #[trigger] spec_translate(m, root, (v0 + j * 4096) as u64) is None
        }),
{
    lemma_map_pages_translate(w, root, v0, phys, leaf);
    let w2 = spec_map_from(w, root, v0, phys, 0, 0x743, leaf).0;
    assert forall|j: int| 0 <= j < phys.len() implies #[trigger] spec_translate(
        w2.mem,
        root,
        (v0 + j * 4096) as u64,
    ) is Some by {
        assert(spec_translate(w2.mem, root, (v0 + j * 4096) as u64) == Some(
            (phys[j] as u64) & PHYS_ADDR_MASK,
        ));
    }
    lemma_unmap_from_count(w2, root, v0, phys.len(), 0);
    lemma_unmap_pages_unmapped(w2, root, v0, phys.len());
}

/// Unmapping pages leaves every page of the range unmapped.
proof fn lemma_unmap_from(w: MapWalk, root: usize, v0: u64, n: nat, i: nat)
    requires
        walk_wf(w, root),
        v0 + n * 4096 <= MAX_USER_OFFSET + 1,
        i <= n,
        forall|j: int|
            0 <= j < i ==> #[trigger] spec_translate(w.mem, root, (v0 + j * 4096) as u64) is None,
    ensures
        ({
            let (m, c) = spec_unmap_from(w.mem, root, v0, n, i);
            &&& walk_wf(MapWalk { mem: m, ..w }, root)
            &&& forall|j: int|
                0 <= j < n ==> #[trigger] spec_translate(m, root, (v0 + j * 4096) as u64) is None
        }),
    decreases n - i,
{
    if i < n {
        let v = (v0 + i * 4096) as u64;
        let m2 = spec_unmap_mem(w.mem, root, v);
        let w2 = MapWalk { mem: m2, ..w };
        lemma_unmap_mem(w, root, v, v);
        assert forall|j: int| 0 <= j < i + 1 implies #[trigger] spec_translate(
            m2,
            root,
            (v0 + j * 4096) as u64,
        ) is None by {
            lemma_unmap_mem(w, root, v, (v0 + j * 4096) as u64);
        }
        lemma_unmap_from(w2, root, v0, n, i + 1);
    }
}

/// Unmapping a range of pages leaves each of them unmapped.
pub proof fn lemma_unmap_pages_unmapped(w: MapWalk, root: usize, v0: u64, n: nat)
    requires
        walk_wf(w, root),
        v0 + n * 4096 <= MAX_USER_OFFSET + 1,
    ensures
        forall|j: int|
            0 <= j < n ==> #[trigger] spec_translate(
                spec_unmap_from(w.mem, root, v0, n, 0).0,
                root,
                (v0 + j * 4096) as u64,
            ) is None,
{
    lemma_unmap_from(w, root, v0, n, 0);
}

// ---------------------------------------------------------------------------
// The kernel's mapping pool
// ---------------------------------------------------------------------------

/// Memory attribute indexes (MAIR) of the cache policies.
pub const MT_NORMAL: u64 = 0;
pub const MT_NORMAL_NO_CACHING: u64 = 1;
pub const MT_DEVICE_NGNRNE: u64 = 2;
pub const MT_DEVICE_NGNRE: u64 = 3;

/// The entry flags of a kernel pool page: a valid, inner-shareable,
/// accessed page with the memory type of `cache`.
pub open spec fn spec_kpool_flags(cache: MemoryType) -> u64 {
    PGENT_PG_DESC | PGENT_INSH | PGENT_ACCESS | (match cache {
        MemoryType::Normal => MT_NORMAL,
        MemoryType::Device => MT_DEVICE_NGNRNE,
        MemoryType::OutputDMA => MT_DEVICE_NGNRE,
    } << 2u64)
}

pub fn kpool_flags(cache: MemoryType) -> (f: u64)
    ensures
        f == spec_kpool_flags(cache),
{
    let mt: u64 = match cache {
        MemoryType::Normal => MT_NORMAL,
        MemoryType::Device => MT_DEVICE_NGNRNE,
        MemoryType::OutputDMA => MT_DEVICE_NGNRE,
    };
    PGENT_PG_DESC | PGENT_INSH | PGENT_ACCESS | (mt << 2u64)
}

impl MMUMapping {
    /// Maps `frame_cnt` frames from `phys_base` into the first run of
    /// unmapped (never accessed) pages of the kernel's pool, with the memory
    /// type of `cache`, and returns the run's address; none when no run is
    /// free. Each page of the run is then to be flushed from the TLB.
    pub fn kmap(pool: &mut KernelPool, phys_base: usize, frame_cnt: usize, cache: MemoryType) -> (r: Option<usize>)
        requires
            phys_base + frame_cnt * 4096 <= usize::MAX,
            old(pool).ptes@.len() == KPOOL_PAGES,
        ensures
            final(pool).ptes@.len() == KPOOL_PAGES,
            match spec_first_window(old(pool).ptes@, frame_cnt as int, PGENT_ACCESS) {
                Some(v) => {
                    &&& r == Some((MIN_KPOOL_VIRTUAL + v * 4096) as usize)
                    &&& final(pool).ptes@ == spec_fill(
                        old(pool).ptes@,
                        v,
                        phys_base as int,
                        frame_cnt as int,
                        spec_kpool_flags(cache),
                    )
                },
                None => r is None && final(pool).ptes@ == old(pool).ptes@,
            },
    {
        let flags = kpool_flags(cache);
        match pool.map_first_window(phys_base, frame_cnt, PGENT_ACCESS, flags) {
            Some(v) => {
                assert(v <= KPOOL_PAGES);
                Some((MIN_KPOOL_VIRTUAL + (v as u64) * 4096) as usize)
            },
            None => None,
        }
    }

    /// Unmaps `frame_cnt` pages of the kernel's pool from `virt_base`;
    /// addresses outside the pool are left alone. Returns whether pages
    /// were unmapped (each is then to be flushed from the TLB).
    pub fn kunmap(pool: &mut KernelPool, virt_base: usize, frame_cnt: usize) -> (flushed: bool)
        requires
            old(pool).ptes@.len() == KPOOL_PAGES,
            MIN_KPOOL_VIRTUAL <= virt_base < MAX_KPOOL_VIRTUAL ==> (virt_base - MIN_KPOOL_VIRTUAL) / 4096
                + frame_cnt <= KPOOL_PAGES,
        ensures
            final(pool).ptes@.len() == KPOOL_PAGES,
            !(MIN_KPOOL_VIRTUAL <= virt_base < MAX_KPOOL_VIRTUAL) ==> !flushed && final(pool).ptes@
                == old(pool).ptes@,
            MIN_KPOOL_VIRTUAL <= virt_base < MAX_KPOOL_VIRTUAL ==> flushed && final(pool).ptes@
                == spec_clear(old(pool).ptes@, (virt_base - MIN_KPOOL_VIRTUAL) / 4096, frame_cnt as int),
    {
        let va = virt_base as u64;
        if va < MIN_KPOOL_VIRTUAL || va >= MAX_KPOOL_VIRTUAL {
            return false;
        }
        let start = ((va - MIN_KPOOL_VIRTUAL) / 4096) as usize;
        pool.clear(start, frame_cnt);
        true
    }
}

// ---------------------------------------------------------------------------
// Releasing an address space
// ---------------------------------------------------------------------------

/// The frames of the pages mapped by entries `0..k` of the level-3 table at
/// `t`.
pub open spec fn l3_release(m: Map<usize, Seq<u64>>, t: usize, k: int) -> Seq<usize>
    decreases k,
{
    if k <= 0 {
        Seq::empty()
    } else {
        let prev = l3_release(m, t, k - 1);
        let e = spec_read(m, t, k - 1);
        if e & PGENT_PG_DESC != 0 {
            prev.push((e & PHYS_ADDR_MASK) as usize)
        } else {
            prev
        }
    }
}

/// What entries `0..k` of the level-2 table at `t` release: for each
/// level-3 table, the frames it maps, then the table itself.
pub open spec fn l2_release(m: Map<usize, Seq<u64>>, t: usize, k: int) -> Seq<usize>
    decreases k,
{
    if k <= 0 {
        Seq::empty()
    } else {
        let prev = l2_release(m, t, k - 1);
        let e = spec_read(m, t, k - 1);
        let l3 = (e & PHYS_ADDR_MASK) as usize;
        if e & PGENT_TBL_DESC != 0 {
            prev + l3_release(m, l3, 512).push(l3)
        } else {
            prev
        }
    }
}

/// What entries `0..k` of the level-1 table at `t` release: for each
/// level-2 table, what its entries release, then the table itself.
pub open spec fn l1_release(m: Map<usize, Seq<u64>>, t: usize, k: int) -> Seq<usize>
    decreases k,
{
    if k <= 0 {
        Seq::empty()
    } else {
        let prev = l1_release(m, t, k - 1);
        let e = spec_read(m, t, k - 1);
        let l2 = (e & PHYS_ADDR_MASK) as usize;
        if e & PGENT_TBL_DESC != 0 {
            prev + l2_release(m, l2, 512).push(l2)
        } else {
            prev
        }
    }
}

impl MMUMapping {
    /// The frames that dropping this address space gives back, in the order
    /// they are freed: the mapped frames and the tables, level by level,
    /// then the level-1 table.
    pub open spec fn spec_release_frames(&self) -> Seq<usize> {
        l1_release(self.tables.mem(), self.ttbr1 as usize, 512).push(self.ttbr1 as usize)
    }

    fn release_l3(&self, t: usize, out: &mut Vec<usize>)
        ensures
            final(out)@ == old(out)@ + l3_release(self.tables.mem(), t, 512),
    {
        let ghost m = self.tables.mem();
        let ghost start = out@;
        let mut k: usize = 0;
        while k < 512
            invariant
                k <= 512,
                m == self.tables.mem(),
                out@ == start + l3_release(m, t, k as int),
            decreases 512 - k,
        {
            let e = self.tables.read(t, k);
            if e & PGENT_PG_DESC != 0 {
                out.push((e & PHYS_ADDR_MASK) as usize);
            }
            k = k + 1;
            assert(out@ =~= start + l3_release(m, t, k as int));
        }
    }

    fn release_l2(&self, t: usize, out: &mut Vec<usize>)
        ensures
            final(out)@ == old(out)@ + l2_release(self.tables.mem(), t, 512),
    {
        let ghost m = self.tables.mem();
        let ghost start = out@;
        let mut k: usize = 0;
        while k < 512
            invariant
                k <= 512,
                m == self.tables.mem(),
                out@ == start + l2_release(m, t, k as int),
            decreases 512 - k,
        {
            let e = self.tables.read(t, k);
            if e & PGENT_TBL_DESC != 0 {
                let l3 = (e & PHYS_ADDR_MASK) as usize;
                self.release_l3(l3, out);
                out.push(l3);
            }
            k = k + 1;
            assert(out@ =~= start + l2_release(m, t, k as int));
        }
    }

    /// The frames that dropping this address space gives back, in the
    /// order they are freed (the caller frees them).
    pub fn release_frames(&self) -> (v: Vec<usize>)
        ensures
            v@ == self.spec_release_frames(),
    {
        let ghost m = self.tables.mem();
        let root = self.ttbr1 as usize;
        let mut out: Vec<usize> = Vec::new();
        let mut k: usize = 0;
        while k < 512
            invariant
                k <= 512,
                m == self.tables.mem(),
                root == self.ttbr1 as usize,
                out@ == l1_release(m, root, k as int),
            decreases 512 - k,
        {
            let e = self.tables.read(root, k);
            if e & PGENT_TBL_DESC != 0 {
                let l2 = (e & PHYS_ADDR_MASK) as usize;
                self.release_l2(l2, &mut out);
                out.push(l2);
            }
            k = k + 1;
            assert(out@ =~= l1_release(m, root, k as int));
        }
        out.push(root);
        out
    }
}

} // verus!
