//! The four-level page table and the mapping operation that extends it.
//!
//! Each table holds 512 entries; an entry is empty, points at the frame of
//! a next-level table, or (at the leaf level, or as a huge page at an
//! intermediate level) maps a frame directly.  A virtual address selects
//! one entry per level through four 9-bit index fields above the 12-bit
//! page offset.  `map_to` walks the hierarchy from level 4, creating
//! missing intermediate tables from freshly allocated, zeroed frames, and
//! installs the final page-to-frame mapping at level 1.  It never
//! overwrites an existing present mapping.

use vstd::prelude::*;

verus! {

use crate::addr::{PhysAddr, VirtAddr, PAGE_SIZE};
use crate::memory::{frames_avail, BootInfoFrameAllocator};

/// Access permissions recorded in a page-table entry.
#[derive(Debug, Clone, Copy, PartialEq, Eq, Structural)]
pub struct PageTableFlags {
    /// The mapping exists and may be used by the CPU.
    pub present: bool,
    /// Writes through this mapping are allowed.
    pub writable: bool,
}

impl PageTableFlags {
    /// The flags every intermediate table and the kernel heap use.
    pub fn present_writable() -> (f: PageTableFlags)
        ensures
            f.present,
            f.writable,
    {
        PageTableFlags { present: true, writable: true }
    }
}

/// Why a `map_to` call failed.
#[derive(Debug, Clone, Copy, PartialEq, Eq, Structural)]
pub enum MapToError {
    /// The frame allocator ran out of physical frames while creating an
    /// intermediate table.
    FrameAllocationFailed,
    /// The leaf entry for this page already holds a mapping.
    PageAlreadyMapped,
    /// An intermediate entry on the walk maps a huge page, so there is no
    /// next-level table to descend into.
    ParentEntryHugePage,
}

/// One entry of a page table.
pub enum PageTableEntry {
    /// No mapping.
    Empty,
    /// Points at the next-level table, held in the named frame.
    Table(PhysAddr, Box<PageTable>),
    /// Maps a frame: the final mapping at level 1, a huge page above it.
    Frame(PhysAddr, PageTableFlags),
}

/// A single page table: 512 entries at one level of the hierarchy.
pub struct PageTable {
    pub entries: Vec<PageTableEntry>,
}

/// Bit position of the 9-bit index field that `level` reads from a
/// virtual address.
pub open spec fn level_shift(level: int) -> u64 {
    (12 + 9 * (level - 1)) as u64
}

/// The index a virtual address selects at `level`.
pub open spec fn page_table_index(addr: u64, level: int) -> int {
    ((addr >> level_shift(level)) & 0x1ff) as int
}

/// Index fields are 9 bits wide, so they always fall inside a table.
pub proof fn lemma_page_table_index_bounds(addr: u64, level: int)
    ensures
        0 <= page_table_index(addr, level) < 512,
{
    let sh = level_shift(level);
    assert(((addr >> sh) & 0x1ff) < 512) by (bit_vector);
}

/// Two addresses select the same entries at every level from `level` down
/// to 1 — that is, they lie in the same page of the leaf table reached by
/// that walk.
pub open spec fn same_path(a: u64, b: u64, level: int) -> bool {
    forall|l: int| 1 <= l <= level ==> page_table_index(a, l) == page_table_index(b, l)
}

pub proof fn lemma_same_path_unfold(a: u64, b: u64, level: int)
    requires
        level >= 1,
    ensures
        same_path(a, b, level) <==> (page_table_index(a, level) == page_table_index(b, level)
            && same_path(a, b, level - 1)),
{
    if page_table_index(a, level) == page_table_index(b, level) && same_path(a, b, level - 1) {
        assert forall|l: int| 1 <= l <= level implies page_table_index(a, l) == page_table_index(
            b,
            l,
        ) by {
            if l < level {
                assert(same_path(a, b, level - 1));
            }
        }
    }
}

/// A table is well formed at `level` when it has exactly 512 entries,
/// each of them well formed for that level.
pub open spec fn table_wf(t: PageTable, level: int) -> bool
    decreases level, 1int,
{
    &&& t.entries.len() == 512
    &&& forall|i: int| 0 <= i < 512 ==> entry_wf(#[trigger] t.entries@[i], level)
}

/// Frames named by entries are aligned; next-level tables only exist
/// above level 1 and are themselves well formed; direct frame mappings
/// sit at level 1 (or as huge pages at levels 2 and 3, never at the top).
pub open spec fn entry_wf(e: PageTableEntry, level: int) -> bool
    decreases level, 0int,
{
    match e {
        PageTableEntry::Empty => true,
        PageTableEntry::Frame(f, _flags) => f.0 % PAGE_SIZE == 0 && level <= 3,
        PageTableEntry::Table(f, sub) => f.0 % PAGE_SIZE == 0 && level >= 2 && table_wf(
            *sub,
            level - 1,
        ),
    }
}

/// The physical frame (and flags) the hierarchy maps a virtual address
/// to, if any.  Huge-page entries are treated as unmapped: this kernel
/// never creates them and does not translate through them.
pub open spec fn translate_spec(t: PageTable, level: int, addr: u64) -> Option<
    (u64, PageTableFlags),
>
    recommends
        table_wf(t, level),
        1 <= level <= 4,
    decreases level,
{
    let idx = page_table_index(addr, level);
    match t.entries@[idx] {
        PageTableEntry::Empty => None,
        PageTableEntry::Frame(f, flags) => if level == 1 {
            Some((f.0, flags))
        } else {
            None
        },
        PageTableEntry::Table(_f, sub) => if level >= 2 {
            translate_spec(*sub, level - 1, addr)
        } else {
            None
        },
    }
}

/// The conflict, if any, that a `map_to` walk for `addr` runs into:
/// an occupied leaf entry, or a huge page blocking the descent.
pub open spec fn walk_error(t: PageTable, level: int, addr: u64) -> Option<MapToError>
    recommends
        table_wf(t, level),
        1 <= level <= 4,
    decreases level,
{
    let idx = page_table_index(addr, level);
    if level <= 1 {
        match t.entries@[idx] {
            PageTableEntry::Empty => None,
            _ => Some(MapToError::PageAlreadyMapped),
        }
    } else {
        match t.entries@[idx] {
            PageTableEntry::Empty => None,
            PageTableEntry::Frame(_f, _flags) => Some(MapToError::ParentEntryHugePage),
            PageTableEntry::Table(_f, sub) => walk_error(*sub, level - 1, addr),
        }
    }
}

/// How many intermediate tables a `map_to` walk for `addr` still has to
/// create, and hence how many frames it will request.
pub open spec fn missing_tables(t: PageTable, level: int, addr: u64) -> int
    recommends
        table_wf(t, level),
        1 <= level <= 4,
    decreases level,
{
    if level <= 1 {
        0
    } else {
        match t.entries@[page_table_index(addr, level)] {
            PageTableEntry::Empty => level - 1,
            PageTableEntry::Frame(_f, _flags) => 0,
            PageTableEntry::Table(_f, sub) => missing_tables(*sub, level - 1, addr),
        }
    }
}

/// A walk never needs more than `level - 1` new tables.
pub proof fn lemma_missing_tables_bound(t: PageTable, level: int, addr: u64)
    requires
        table_wf(t, level),
        1 <= level <= 4,
    ensures
        0 <= missing_tables(t, level, addr) <= level - 1,
    decreases level,
{
    lemma_page_table_index_bounds(addr, level);
    let idx = page_table_index(addr, level);
    if level > 1 {
        match t.entries@[idx] {
            PageTableEntry::Empty => {},
            PageTableEntry::Frame(_f, _flags) => {},
            PageTableEntry::Table(_f, sub) => {
                assert(entry_wf(t.entries@[idx], level));
                lemma_missing_tables_bound(*sub, level - 1, addr);
            },
        }
    }
}

/// The outcome `map_to` owes for a table in this state: a conflict on the
/// walk is reported as found; otherwise the call succeeds exactly when
/// the allocator still holds enough frames for the missing tables.
pub open spec fn map_result_spec(t: PageTable, level: int, addr: u64, avail: int) -> Result<
    (),
    MapToError,
> {
    match walk_error(t, level, addr) {
        Some(e) => Err(e),
        None => if missing_tables(t, level, addr) <= avail {
            Ok(())
        } else {
            Err(MapToError::FrameAllocationFailed)
        },
    }
}

impl PageTable {
    /// A zeroed table: 512 empty entries, mapping nothing, conflicting
    /// with nothing, missing the full chain of tables below it.
    pub fn empty() -> (t: PageTable)
        ensures
            t.entries@.len() == 512,
            forall|i: int| 0 <= i < 512 ==> #[trigger] t.entries@[i] is Empty,
            forall|l: int| table_wf(t, l),
            forall|l: int, a: u64| 1 <= l <= 4 ==> #[trigger] translate_spec(t, l, a) is None,
            forall|l: int, a: u64| 1 <= l <= 4 ==> #[trigger] walk_error(t, l, a) is None,
            forall|l: int, a: u64|
                1 <= l <= 4 ==> #[trigger] missing_tables(t, l, a) == l - 1,
    {
        let mut entries: Vec<PageTableEntry> = Vec::new();
        let mut i: usize = 0;
        while i < 512
            invariant
                i <= 512,
                entries@.len() == i,
                forall|t: int| 0 <= t < i ==> #[trigger] entries@[t] is Empty,
            decreases 512 - i,
        {
            entries.push(PageTableEntry::Empty);
            i = i + 1;
        }
        let t = PageTable { entries };
        proof {
            assert forall|l: int, a: u64| 1 <= l <= 4 implies #[trigger] translate_spec(t, l, a)
                is None by {
                lemma_page_table_index_bounds(a, l);
                assert(t.entries@[page_table_index(a, l)] is Empty);
            }
            assert forall|l: int, a: u64| 1 <= l <= 4 implies #[trigger] walk_error(t, l, a)
                is None by {
                lemma_page_table_index_bounds(a, l);
                assert(t.entries@[page_table_index(a, l)] is Empty);
            }
            assert forall|l: int, a: u64| 1 <= l <= 4 implies #[trigger] missing_tables(t, l, a)
                == l - 1 by {
                lemma_page_table_index_bounds(a, l);
                assert(t.entries@[page_table_index(a, l)] is Empty);
            }
        }
        t
    }

    /// Walk the hierarchy for `addr` and report the mapped frame, if any.
    pub fn translate_at(&self, level: u64, addr: u64) -> (r: Option<(PhysAddr, PageTableFlags)>)
        requires
            table_wf(*self, level as int),
            1 <= level <= 4,
        ensures
            match translate_spec(*self, level as int, addr) {
                Some((f, flags)) => r matches Some(p) && p.0.0 == f && p.1 == flags,
                None => r is None,
            },
        decreases level,
    {
        proof {
            lemma_page_table_index_bounds(addr, level as int);
        }
        let idx = page_index(addr, level);
        match &self.entries[idx] {
            PageTableEntry::Empty => None,
            PageTableEntry::Frame(f, flags) => {
                if level == 1 {
                    Some((*f, *flags))
                } else {
                    None
                }
            },
            PageTableEntry::Table(_f, sub) => {
                if level > 1 {
                    proof {
                        assert(entry_wf(self.entries@[idx as int], level as int));
                    }
                    sub.translate_at(level - 1, addr)
                } else {
                    None
                }
            },
        }
    }
}

/// Taking an entry out of a table and putting one back at the same index
/// touches no other entry.
proof fn lemma_remove_insert(s: Seq<PageTableEntry>, i: int, e: PageTableEntry)
    requires
        0 <= i < s.len(),
    ensures
        s.remove(i).insert(i, e).len() == s.len(),
        forall|j: int| 0 <= j < s.len() && j != i ==> #[trigger] s.remove(i).insert(i, e)[j]
            == s[j],
        s.remove(i).insert(i, e)[i] == e,
{
    s.remove_ensures(i);
    s.remove(i).insert_ensures(i, e);
    assert forall|j: int| 0 <= j < s.len() && j != i implies #[trigger] s.remove(i).insert(i, e)[j]
        == s[j] by {
        if j < i {
            assert(s.remove(i).insert(i, e)[j] == s.remove(i)[j]);
        } else {
            assert(s.remove(i).insert(i, e)[(j - 1) + 1] == s.remove(i)[j - 1]);
            assert(s.remove(i)[j - 1] == s[j]);
        }
    }
}

impl PageTable {
    /// One level of the mapping walk: install `page -> frame` with
    /// `flags` in the hierarchy below this table, which serves `level`.
    ///
    /// An empty intermediate entry is filled with a freshly allocated,
    /// zeroed table (its frame comes from `fa` and is consumed forever);
    /// an intermediate huge-page entry or an occupied leaf entry aborts
    /// the walk, leaving every existing translation exactly as it was.
    /// An existing mapping is never overwritten.
    fn map_at(
        &mut self,
        level: u64,
        page: VirtAddr,
        frame: PhysAddr,
        flags: PageTableFlags,
        fa: &mut BootInfoFrameAllocator,
    ) -> (r: Result<(), MapToError>)
        requires
            table_wf(*old(self), level as int),
            1 <= level <= 4,
            frame.0 % PAGE_SIZE == 0,
            old(fa).wf(),
            old(fa).next + level <= usize::MAX,
        ensures
            table_wf(*final(self), level as int),
            final(fa).wf(),
            final(fa).regions == old(fa).regions,
            r == map_result_spec(*old(self), level as int, page.0, frames_avail(*old(fa))),
            r is Ok ==> final(fa).next == old(fa).next + missing_tables(
                *old(self),
                level as int,
                page.0,
            ),
            r == Err::<(), MapToError>(MapToError::FrameAllocationFailed) ==> final(fa).next
                == old(fa).next + frames_avail(*old(fa)) + 1,
            (r == Err::<(), MapToError>(MapToError::PageAlreadyMapped) || r == Err::<
                (),
                MapToError,
            >(MapToError::ParentEntryHugePage)) ==> final(fa).next == old(fa).next,
            r is Ok ==> forall|a: u64|
                #[trigger] translate_spec(*final(self), level as int, a) == if same_path(
                    a,
                    page.0,
                    level as int,
                ) {
                    Some((frame.0, flags))
                } else {
                    translate_spec(*old(self), level as int, a)
                },
            r is Err ==> forall|a: u64|
                #[trigger] translate_spec(*final(self), level as int, a) == translate_spec(
                    *old(self),
                    level as int,
                    a,
                ),
            forall|a: u64|
                !same_path(a, page.0, level as int) && walk_error(*old(self), level as int, a)
                    is None ==> #[trigger] walk_error(*final(self), level as int, a) is None,
        decreases level,
    {
        proof {
            lemma_page_table_index_bounds(page.0, level as int);
        }
        let idx = page_index(page.0, level);
        let ghost old_t = *self;
        let ghost old_fa = *fa;
        let ghost lvl = level as int;
        if level == 1 {
            let entry = self.entries.remove(idx);
            match entry {
                PageTableEntry::Empty => {
                    self.entries.insert(idx, PageTableEntry::Frame(frame, flags));
                    proof {
                        lemma_remove_insert(
                            old_t.entries@,
                            idx as int,
                            PageTableEntry::Frame(frame, flags),
                        );
                        assert forall|i: int| 0 <= i < 512 implies entry_wf(
                            #[trigger] self.entries@[i],
                            lvl,
                        ) by {
                            if i != idx {
                                assert(entry_wf(old_t.entries@[i], lvl));
                            }
                        }
                        assert forall|a: u64|
                            #[trigger] translate_spec(*self, lvl, a) == if same_path(a, page.0, lvl) {
                                Some((frame.0, flags))
                            } else {
                                translate_spec(old_t, lvl, a)
                            } by {
                            lemma_page_table_index_bounds(a, lvl);
                            lemma_same_path_unfold(a, page.0, lvl);
                            if page_table_index(a, lvl) == idx as int {
                                assert(same_path(a, page.0, lvl - 1));
                                assert(same_path(a, page.0, lvl));
                            }
                        }
                        assert forall|a: u64|
                            !same_path(a, page.0, lvl) && walk_error(old_t, lvl, a)
                                is None implies #[trigger] walk_error(*self, lvl, a) is None by {
                            lemma_page_table_index_bounds(a, lvl);
                            lemma_same_path_unfold(a, page.0, lvl);
                        }
                    }
                    Ok(())
                },
                e => {
                    self.entries.insert(idx, e);
                    proof {
                        lemma_remove_insert(old_t.entries@, idx as int, old_t.entries@[idx as int]);
                        assert forall|i: int| 0 <= i < 512 implies entry_wf(
                            #[trigger] self.entries@[i],
                            lvl,
                        ) by {
                            assert(entry_wf(old_t.entries@[i], lvl));
                        }
                        assert forall|a: u64|
                            #[trigger] translate_spec(*self, lvl, a) == translate_spec(
                                old_t,
                                lvl,
                                a,
                            ) by {
                            lemma_page_table_index_bounds(a, lvl);
                        }
                        assert forall|a: u64|
                            !same_path(a, page.0, lvl) && walk_error(old_t, lvl, a)
                                is None implies #[trigger] walk_error(*self, lvl, a) is None by {
                            lemma_page_table_index_bounds(a, lvl);
                        }
                    }
                    Err(MapToError::PageAlreadyMapped)
                },
            }
        } else {
            let entry = self.entries.remove(idx);
            match entry {
                PageTableEntry::Empty => {
                    match fa.allocate_frame() {
                        None => {
                            self.entries.insert(idx, PageTableEntry::Empty);
                            proof {
                                lemma_remove_insert(old_t.entries@, idx as int, PageTableEntry::Empty);
                                assert forall|i: int| 0 <= i < 512 implies entry_wf(
                                    #[trigger] self.entries@[i],
                                    lvl,
                                ) by {
                                    assert(entry_wf(old_t.entries@[i], lvl));
                                }
                                assert forall|a: u64|
                                    #[trigger] translate_spec(*self, lvl, a) == translate_spec(
                                        old_t,
                                        lvl,
                                        a,
                                    ) by {
                                    lemma_page_table_index_bounds(a, lvl);
                                }
                                assert forall|a: u64|
                                    !same_path(a, page.0, lvl) && walk_error(old_t, lvl, a)
                                        is None implies #[trigger] walk_error(*self, lvl, a)
                                        is None by {
                                    lemma_page_table_index_bounds(a, lvl);
                                }
                            }
                            Err(MapToError::FrameAllocationFailed)
                        },
                        Some(f) => {
                            let mut sub = Box::new(PageTable::empty());
                            let ghost empty_t = *sub;
                            let r = (&mut *sub).map_at(level - 1, page, frame, flags, fa);
                            let ghost sub_final = *sub;
                            let ghost new_entry = PageTableEntry::Table(f, sub);
                            self.entries.insert(idx, PageTableEntry::Table(f, sub));
                            proof {
                                lemma_remove_insert(old_t.entries@, idx as int, new_entry);
                                assert(self.entries@[idx as int] == new_entry);
                                assert(new_entry matches PageTableEntry::Table(g, s) && g == f
                                    && *s == sub_final);
                                assert forall|i: int| 0 <= i < 512 implies entry_wf(
                                    #[trigger] self.entries@[i],
                                    lvl,
                                ) by {
                                    if i != idx {
                                        assert(entry_wf(old_t.entries@[i], lvl));
                                    }
                                }
                                assert(walk_error(old_t, lvl, page.0) is None);
                                assert(missing_tables(old_t, lvl, page.0) == lvl - 1);
                                assert(r == map_result_spec(
                                    old_t,
                                    lvl,
                                    page.0,
                                    frames_avail(old_fa),
                                ));
                                if r is Ok {
                                    assert forall|a: u64|
                                        #[trigger] translate_spec(*self, lvl, a) == if same_path(
                                            a,
                                            page.0,
                                            lvl,
                                        ) {
                                            Some((frame.0, flags))
                                        } else {
                                            translate_spec(old_t, lvl, a)
                                        } by {
                                        lemma_page_table_index_bounds(a, lvl);
                                        lemma_same_path_unfold(a, page.0, lvl);
                                        if page_table_index(a, lvl) == idx as int {
                                            assert(translate_spec(*self, lvl, a) == translate_spec(
                                                sub_final,
                                                lvl - 1,
                                                a,
                                            ));
                                            assert(translate_spec(empty_t, lvl - 1, a) is None);
                                        }
                                    }
                                } else {
                                    assert forall|a: u64|
                                        #[trigger] translate_spec(*self, lvl, a) == translate_spec(
                                            old_t,
                                            lvl,
                                            a,
                                        ) by {
                                        lemma_page_table_index_bounds(a, lvl);
                                        if page_table_index(a, lvl) == idx as int {
                                            assert(translate_spec(*self, lvl, a) == translate_spec(
                                                sub_final,
                                                lvl - 1,
                                                a,
                                            ));
                                            assert(translate_spec(empty_t, lvl - 1, a) is None);
                                        }
                                    }
                                }
                                assert forall|a: u64|
                                    !same_path(a, page.0, lvl) && walk_error(old_t, lvl, a)
                                        is None implies #[trigger] walk_error(*self, lvl, a)
                                        is None by {
                                    lemma_page_table_index_bounds(a, lvl);
                                    lemma_same_path_unfold(a, page.0, lvl);
                                    if page_table_index(a, lvl) == idx as int {
                                        assert(!same_path(a, page.0, lvl - 1));
                                        assert(walk_error(empty_t, lvl - 1, a) is None);
                                        assert(walk_error(sub_final, lvl - 1, a) is None);
                                        assert(walk_error(*self, lvl, a) == walk_error(
                                            sub_final,
                                            lvl - 1,
                                            a,
                                        ));
                                    }
                                }
                            }
                            r
                        },
                    }
                },
                PageTableEntry::Frame(f, fl) => {
                    self.entries.insert(idx, PageTableEntry::Frame(f, fl));
                    proof {
                        lemma_remove_insert(old_t.entries@, idx as int, old_t.entries@[idx as int]);
                        assert forall|i: int| 0 <= i < 512 implies entry_wf(
                            #[trigger] self.entries@[i],
                            lvl,
                        ) by {
                            assert(entry_wf(old_t.entries@[i], lvl));
                        }
                        assert forall|a: u64|
                            #[trigger] translate_spec(*self, lvl, a) == translate_spec(
                                old_t,
                                lvl,
                                a,
                            ) by {
                            lemma_page_table_index_bounds(a, lvl);
                        }
                        assert forall|a: u64|
                            !same_path(a, page.0, lvl) && walk_error(old_t, lvl, a)
                                is None implies #[trigger] walk_error(*self, lvl, a) is None by {
                            lemma_page_table_index_bounds(a, lvl);
                        }
                    }
                    Err(MapToError::ParentEntryHugePage)
                },
                PageTableEntry::Table(f, mut sub) => {
                    proof {
                        assert(entry_wf(old_t.entries@[idx as int], lvl));
                    }
                    let ghost sub_old = *sub;
                    let r = (&mut *sub).map_at(level - 1, page, frame, flags, fa);
                    let ghost sub_final = *sub;
                    let ghost new_entry = PageTableEntry::Table(f, sub);
                    self.entries.insert(idx, PageTableEntry::Table(f, sub));
                    proof {
                        lemma_remove_insert(old_t.entries@, idx as int, new_entry);
                        assert(self.entries@[idx as int] == new_entry);
                        assert(new_entry matches PageTableEntry::Table(g, s) && g == f && *s
                            == sub_final);
                        assert forall|i: int| 0 <= i < 512 implies entry_wf(
                            #[trigger] self.entries@[i],
                            lvl,
                        ) by {
                            if i != idx {
                                assert(entry_wf(old_t.entries@[i], lvl));
                            }
                        }
                        assert(walk_error(old_t, lvl, page.0) == walk_error(
                            sub_old,
                            lvl - 1,
                            page.0,
                        ));
                        assert(missing_tables(old_t, lvl, page.0) == missing_tables(
                            sub_old,
                            lvl - 1,
                            page.0,
                        ));
                        assert(r == map_result_spec(old_t, lvl, page.0, frames_avail(old_fa)));
                        if r is Ok {
                            assert forall|a: u64|
                                #[trigger] translate_spec(*self, lvl, a) == if same_path(
                                    a,
                                    page.0,
                                    lvl,
                                ) {
                                    Some((frame.0, flags))
                                } else {
                                    translate_spec(old_t, lvl, a)
                                } by {
                                lemma_page_table_index_bounds(a, lvl);
                                lemma_same_path_unfold(a, page.0, lvl);
                                if page_table_index(a, lvl) == idx as int {
                                    assert(translate_spec(*self, lvl, a) == translate_spec(
                                        sub_final,
                                        lvl - 1,
                                        a,
                                    ));
                                    assert(translate_spec(old_t, lvl, a) == translate_spec(
                                        sub_old,
                                        lvl - 1,
                                        a,
                                    ));
                                }
                            }
                        } else {
                            assert forall|a: u64|
                                #[trigger] translate_spec(*self, lvl, a) == translate_spec(
                                    old_t,
                                    lvl,
                                    a,
                                ) by {
                                lemma_page_table_index_bounds(a, lvl);
                                if page_table_index(a, lvl) == idx as int {
                                    assert(translate_spec(*self, lvl, a) == translate_spec(
                                        sub_final,
                                        lvl - 1,
                                        a,
                                    ));
                                    assert(translate_spec(old_t, lvl, a) == translate_spec(
                                        sub_old,
                                        lvl - 1,
                                        a,
                                    ));
                                }
                            }
                        }
                        assert forall|a: u64|
                            !same_path(a, page.0, lvl) && walk_error(old_t, lvl, a)
                                is None implies #[trigger] walk_error(*self, lvl, a) is None by {
                            lemma_page_table_index_bounds(a, lvl);
                            lemma_same_path_unfold(a, page.0, lvl);
                            if page_table_index(a, lvl) == idx as int {
                                assert(!same_path(a, page.0, lvl - 1));
                                assert(walk_error(old_t, lvl, a) == walk_error(
                                    sub_old,
                                    lvl - 1,
                                    a,
                                ));
                                assert(walk_error(*self, lvl, a) == walk_error(
                                    sub_final,
                                    lvl - 1,
                                    a,
                                ));
                            }
                        }
                    }
                    r
                },
            }
        }
    }
}

/// The frame a translation lands in is always frame-aligned: it was
/// recorded by a well-formed leaf entry.
pub proof fn lemma_translate_frame_aligned(t: PageTable, level: int, addr: u64)
    requires
        table_wf(t, level),
        1 <= level <= 4,
    ensures
        translate_spec(t, level, addr) matches Some((f, _flags)) ==> f % PAGE_SIZE == 0,
    decreases level,
{
    lemma_page_table_index_bounds(addr, level);
    let idx = page_table_index(addr, level);
    match t.entries@[idx] {
        PageTableEntry::Empty => {},
        PageTableEntry::Frame(_f, _flags) => {
            assert(entry_wf(t.entries@[idx], level));
        },
        PageTableEntry::Table(_f, sub) => {
            assert(entry_wf(t.entries@[idx], level));
            if level >= 2 {
                lemma_translate_frame_aligned(*sub, level - 1, addr);
            }
        },
    }
}

/// The active mapping context: the level-4 table rooted at the CPU's
/// table register, together with the fixed offset at which the boot stage
/// made all of physical memory reachable from virtual addresses.
pub struct OffsetMapper {
    pub physical_memory_offset: VirtAddr,
    pub level_4_table: PageTable,
}

impl OffsetMapper {
    pub open spec fn wf(self) -> bool {
        table_wf(self.level_4_table, 4)
    }

    /// Convert a physical address to the virtual address it is reachable
    /// at, through the whole-physical-memory offset mapping.  This is the
    /// single approved conversion: it serves page-table walks and writes
    /// into freshly allocated frames, not arbitrary memory access.
    pub fn phys_to_virt(&self, phys: PhysAddr) -> (v: VirtAddr)
        requires
            self.physical_memory_offset.0 + phys.0 <= u64::MAX,
        ensures
            v.0 == self.physical_memory_offset.0 + phys.0,
    {
        VirtAddr(self.physical_memory_offset.0 + phys.0)
    }

    /// Create the mapping `page -> frame` with the given flags in the
    /// active hierarchy, allocating intermediate tables from `fa` as
    /// needed.  This is the only sanctioned way to create a
    /// virtual-to-physical association; an existing present mapping is
    /// never overwritten (the call fails instead, changing no
    /// translation).  After a successful return the unverified shell must
    /// invalidate the translation cache entry for `page`: the cache is not
    /// coherent with table writes.
    pub fn map_to(
        &mut self,
        page: VirtAddr,
        frame: PhysAddr,
        flags: PageTableFlags,
        fa: &mut BootInfoFrameAllocator,
    ) -> (r: Result<(), MapToError>)
        requires
            old(self).wf(),
            frame.spec_is_frame_aligned(),
            old(fa).wf(),
            old(fa).next + 4 <= usize::MAX,
        ensures
            final(self).wf(),
            final(self).physical_memory_offset == old(self).physical_memory_offset,
            final(fa).wf(),
            final(fa).regions == old(fa).regions,
            r == map_result_spec(
                old(self).level_4_table,
                4,
                page.0,
                frames_avail(*old(fa)),
            ),
            r is Ok ==> translate_spec(final(self).level_4_table, 4, page.0) == Some(
                (frame.0, flags),
            ),
            r is Ok ==> final(fa).next == old(fa).next + missing_tables(
                old(self).level_4_table,
                4,
                page.0,
            ),
            r == Err::<(), MapToError>(MapToError::FrameAllocationFailed) ==> final(fa).next
                == old(fa).next + frames_avail(*old(fa)) + 1,
            (r == Err::<(), MapToError>(MapToError::PageAlreadyMapped) || r == Err::<
                (),
                MapToError,
            >(MapToError::ParentEntryHugePage)) ==> final(fa).next == old(fa).next,
            r is Ok ==> forall|a: u64|
                #[trigger] translate_spec(final(self).level_4_table, 4, a) == if same_path(
                    a,
                    page.0,
                    4,
                ) {
                    Some((frame.0, flags))
                } else {
                    translate_spec(old(self).level_4_table, 4, a)
                },
            r is Err ==> forall|a: u64|
                #[trigger] translate_spec(final(self).level_4_table, 4, a) == translate_spec(
                    old(self).level_4_table,
                    4,
                    a,
                ),
            forall|a: u64|
                !same_path(a, page.0, 4) && walk_error(old(self).level_4_table, 4, a) is None
                    ==> #[trigger] walk_error(final(self).level_4_table, 4, a) is None,
    {
        let r = self.level_4_table.map_at(4, page, frame, flags, fa);
        proof {
            if r is Ok {
                assert(same_path(page.0, page.0, 4));
                assert(translate_spec(self.level_4_table, 4, page.0) == Some((frame.0, flags)));
            }
        }
        r
    }

    /// Translate a virtual address through the hierarchy: the mapped
    /// frame's base plus the address's offset within its page.
    pub fn translate_addr(&self, addr: VirtAddr) -> (r: Option<PhysAddr>)
        requires
            self.wf(),
        ensures
            match translate_spec(self.level_4_table, 4, addr.0) {
                Some((f, _flags)) => r matches Some(p) && p.0 == f + addr.0 % PAGE_SIZE,
                None => r is None,
            },
    {
        proof {
            lemma_translate_frame_aligned(self.level_4_table, 4, addr.0);
            if translate_spec(self.level_4_table, 4, addr.0) is Some {
                let f = translate_spec(self.level_4_table, 4, addr.0)->Some_0.0;
                assert(f % PAGE_SIZE == 0 && f <= u64::MAX ==> f + PAGE_SIZE - 1 <= u64::MAX)
                    by (nonlinear_arith);
            }
        }
        match self.level_4_table.translate_at(4, addr.0) {
            Some((f, _flags)) => Some(PhysAddr(f.0 + addr.0 % PAGE_SIZE)),
            None => None,
        }
    }
}

/// Compute the entry index a virtual address selects at `level`.
pub fn page_index(addr: u64, level: u64) -> (i: usize)
    requires
        1 <= level <= 4,
    ensures
        i == page_table_index(addr, level as int),
        i < 512,
{
    proof {
        lemma_page_table_index_bounds(addr, level as int);
    }
    let sh = 12 + 9 * (level - 1);
    ((addr >> sh) & 0x1ff) as usize
}

} // verus!
