//! Address-space model.
//!
//! An [`AddressSpace`] owns one page-table root and the set of virtual page
//! ranges it has mapped. The hardware page table itself is outside code; the
//! model records, per mapped range, the backing physical page number, the
//! permission flags, and — for frames the space owns — the bytes they hold,
//! so translation and memory access have exact contracts.

use vstd::prelude::*;

verus! {

/// Number of bits in a page offset; pages are 4 KiB in both supported modes.
pub const PAGE_BITS: u64 = 12;
/// Bytes per page.
pub const PAGE_SIZE: u64 = 4096;

/// Exclusive upper bound on physical page numbers (44 bits, the
/// architecture's widest physical page number).
pub const PPN_LIMIT: u64 = 0x1000_0000_0000;

/// The translation mode, chosen once at boot: the strategy that fixes the
/// size of the virtual space, the top-level index width and the encoding of
/// the translation-root token.
#[derive(Clone, Copy, PartialEq, Eq, Structural, Debug)]
pub enum VmMode {
    /// 64-bit mode: 27-bit virtual page numbers, three levels.
    Sv39,
    /// 32-bit mode: 20-bit virtual page numbers, two levels.
    Sv32,
}

impl VmMode {
    /// Number of virtual pages an address space of this mode can hold.
    pub open spec fn vpn_count(self) -> int {
        match self {
            VmMode::Sv39 => 0x800_0000,
            VmMode::Sv32 => 0x10_0000,
        }
    }

    /// Exec mirror of [`VmMode::vpn_count`].
    pub fn vpn_limit(self) -> (r: u64)
        ensures
            r == self.vpn_count(),
    {
        match self {
            VmMode::Sv39 => 0x800_0000,
            VmMode::Sv32 => 0x10_0000,
        }
    }

    /// The reserved virtual page of the portal: the highest page of the space.
    pub open spec fn portal_vpn(self) -> int {
        self.vpn_count() - 1
    }

    /// Exec mirror of [`VmMode::portal_vpn`].
    pub fn portal_page(self) -> (r: u64)
        ensures
            r == self.portal_vpn(),
    {
        self.vpn_limit() - 1
    }

    /// First virtual page above a user stack: the stack occupies the pages
    /// just below this fixed high boundary.
    pub open spec fn stack_top_vpn(self) -> int {
        match self {
            VmMode::Sv39 => 0x400_0000,
            VmMode::Sv32 => 0x8_0000,
        }
    }

    /// Exec mirror of [`VmMode::stack_top_vpn`].
    pub fn stack_top_page(self) -> (r: u64)
        ensures
            r == self.stack_top_vpn(),
    {
        match self {
            VmMode::Sv39 => 0x400_0000,
            VmMode::Sv32 => 0x8_0000,
        }
    }

    /// Mode-select bits of the translation-root token.
    pub open spec fn satp_mode_bits(self) -> int {
        match self {
            VmMode::Sv39 => 0x8000_0000_0000_0000,
            VmMode::Sv32 => 0x8000_0000,
        }
    }

    /// The translation-root token: mode-select bits plus the root page number.
    pub open spec fn satp(self, root_ppn: int) -> int {
        self.satp_mode_bits() + root_ppn
    }

    /// Encode the translation-root token for a root page number.
    pub fn encode_satp(self, root_ppn: u64) -> (r: u64)
        requires
            root_ppn < 0x8000_0000,
        ensures
            r == self.satp(root_ppn as int),
    {
        match self {
            VmMode::Sv39 => 0x8000_0000_0000_0000u64 + root_ppn,
            VmMode::Sv32 => 0x8000_0000u64 + root_ppn,
        }
    }

    /// Bytes of one machine word in this mode.
    pub open spec fn word_bytes(self) -> int {
        match self {
            VmMode::Sv39 => 8,
            VmMode::Sv32 => 4,
        }
    }

    /// Exec mirror of [`VmMode::word_bytes`].
    pub fn word_size(self) -> (r: usize)
        ensures
            r == self.word_bytes(),
    {
        match self {
            VmMode::Sv39 => 8,
            VmMode::Sv32 => 4,
        }
    }

    /// Number of pages one entry of the top page-table level spans.
    pub open spec fn top_level_span(self) -> int {
        match self {
            VmMode::Sv39 => 0x4_0000,
            VmMode::Sv32 => 0x400,
        }
    }

    /// Index of a virtual page in the top page-table level: the slot the
    /// portal occupies is `top_index(portal_vpn)`, identical in every space.
    pub fn top_index(self, vpn: u64) -> (r: u64)
        requires
            vpn < self.vpn_count(),
        ensures
            r == vpn as int / self.top_level_span(),
    {
        match self {
            VmMode::Sv39 => vpn / 0x4_0000,
            VmMode::Sv32 => vpn / 0x400,
        }
    }
}

/// Page permission flags, one field per page-table bit the kernel uses.
#[derive(Clone, Copy, PartialEq, Eq, Structural, Debug)]
pub struct VmFlags {
    pub valid: bool,
    pub readable: bool,
    pub writable: bool,
    pub executable: bool,
    pub user: bool,
    pub global: bool,
}

impl VmFlags {
    /// Whether every permission set in `req` is also set in `self`.
    pub open spec fn spec_contains(self, req: VmFlags) -> bool {
        &&& (req.valid ==> self.valid)
        &&& (req.readable ==> self.readable)
        &&& (req.writable ==> self.writable)
        &&& (req.executable ==> self.executable)
        &&& (req.user ==> self.user)
        &&& (req.global ==> self.global)
    }

    /// Exec mirror of [`VmFlags::spec_contains`].
    pub fn contains(self, req: VmFlags) -> (r: bool)
        ensures
            r == self.spec_contains(req),
    {
        (!req.valid || self.valid) && (!req.readable || self.readable)
            && (!req.writable || self.writable) && (!req.executable || self.executable)
            && (!req.user || self.user) && (!req.global || self.global)
    }

    /// Build a flag set from its bits, valid included.
    pub fn build(readable: bool, writable: bool, executable: bool, user: bool, global: bool) -> (r:
        VmFlags)
        ensures
            r == (VmFlags {
                valid: true,
                readable,
                writable,
                executable,
                user,
                global,
            }),
    {
        VmFlags { valid: true, readable, writable, executable, user, global }
    }

    /// Kernel code: execute + read.
    pub open spec fn kernel_text() -> VmFlags {
        VmFlags {
            valid: true,
            readable: true,
            writable: false,
            executable: true,
            user: false,
            global: false,
        }
    }

    /// Kernel read-only data.
    pub open spec fn kernel_rodata() -> VmFlags {
        VmFlags {
            valid: true,
            readable: true,
            writable: false,
            executable: false,
            user: false,
            global: false,
        }
    }

    /// Kernel data, boot sections and heap: read + write.
    pub open spec fn kernel_data() -> VmFlags {
        VmFlags {
            valid: true,
            readable: true,
            writable: true,
            executable: false,
            user: false,
            global: false,
        }
    }

    /// The portal page: global, every access kind allowed.
    pub open spec fn portal() -> VmFlags {
        VmFlags {
            valid: true,
            readable: true,
            writable: true,
            executable: true,
            user: false,
            global: true,
        }
    }

    /// A user stack: user-accessible read + write, non-executable.
    pub open spec fn user_stack() -> VmFlags {
        VmFlags {
            valid: true,
            readable: true,
            writable: true,
            executable: false,
            user: true,
            global: false,
        }
    }

    /// Requirement for reading through a translation: readable + valid.
    pub open spec fn readable_req() -> VmFlags {
        VmFlags {
            valid: true,
            readable: true,
            writable: false,
            executable: false,
            user: false,
            global: false,
        }
    }

    /// Requirement for writing through a translation: writable + valid.
    pub open spec fn writable_req() -> VmFlags {
        VmFlags {
            valid: true,
            readable: false,
            writable: true,
            executable: false,
            user: false,
            global: false,
        }
    }
}

/// One mapped range of virtual pages.
pub struct MapArea {
    /// First virtual page of the range.
    pub vpn: u64,
    /// Number of pages, always positive.
    pub pages: u64,
    /// First physical page backing the range; the range is physically
    /// contiguous.
    pub ppn: u64,
    /// Permission flags of every page in the range.
    pub flags: VmFlags,
    /// Contents of the backing frames when the space owns them (`map`);
    /// `None` for pages aliased from outside (`map_extern`), whose bytes the
    /// model does not track.
    pub bytes: Option<Vec<u8>>,
}

impl MapArea {
    /// Well-formed: non-empty, backed by physical pages the machine can
    /// have, and owned contents cover the range exactly.
    pub open spec fn wf(self) -> bool {
        &&& self.pages > 0
        &&& self.ppn + self.pages <= PPN_LIMIT
        &&& match self.bytes {
            Some(bs) => bs.len() == self.pages * PAGE_SIZE,
            None => true,
        }
    }

    /// Whether the range covers virtual page `vpn`.
    pub open spec fn covers(self, vpn: int) -> bool {
        self.vpn <= vpn < self.vpn + self.pages
    }

    /// Whether two ranges share no page.
    pub open spec fn disjoint(self, other: MapArea) -> bool {
        self.vpn + self.pages <= other.vpn || other.vpn + other.pages <= self.vpn
    }
}

/// An address space: one page-table root and the ranges mapped under it.
pub struct AddressSpace {
    /// Translation mode of the space.
    pub mode: VmMode,
    /// Physical page of the page-table root; the space's identity.
    pub root_ppn: u64,
    /// Mapped ranges, pairwise disjoint.
    pub areas: Vec<MapArea>,
    /// Next physical page the model's frame allocator hands to `map`.
    pub next_ppn: u64,
}

impl AddressSpace {
    /// Well-formed: every area is well-formed, lies inside the mode's
    /// virtual space, and no two areas overlap.
    pub open spec fn wf(self) -> bool {
        &&& forall|i: int|
            0 <= i < self.areas.len() ==> (#[trigger] self.areas[i]).wf()
        &&& forall|i: int|
            0 <= i < self.areas.len() ==> (#[trigger] self.areas[i]).vpn + self.areas[i].pages
                <= self.mode.vpn_count()
        &&& forall|i: int, j: int|
            0 <= i < j < self.areas.len() ==> (#[trigger] self.areas[i]).disjoint(
                #[trigger] self.areas[j],
            )
    }

    /// A fresh space with no mappings.
    pub fn new(mode: VmMode, root_ppn: u64, frame_base: u64) -> (r: AddressSpace)
        ensures
            r.wf(),
            r.mode == mode,
            r.root_ppn == root_ppn,
            r.areas@ =~= Seq::<MapArea>::empty(),
            r.next_ppn == frame_base,
    {
        AddressSpace { mode, root_ppn, areas: Vec::new(), next_ppn: frame_base }
    }

    /// Whether some area covers virtual page `vpn`.
    pub open spec fn mapped_at(self, vpn: int) -> bool {
        exists|i: int| 0 <= i < self.areas.len() && (#[trigger] self.areas[i]).covers(vpn)
    }

    /// The area covering `vpn` (unique in a well-formed space).
    pub open spec fn area_at(self, vpn: int) -> MapArea {
        self.areas[choose|i: int|
            0 <= i < self.areas.len() && (#[trigger] self.areas[i]).covers(vpn)]
    }

    /// Flags at virtual page `vpn`.
    pub open spec fn flags_at(self, vpn: int) -> VmFlags {
        self.area_at(vpn).flags
    }

    /// Physical page backing virtual page `vpn`.
    pub open spec fn ppn_at(self, vpn: int) -> int {
        self.area_at(vpn).ppn + (vpn - self.area_at(vpn).vpn)
    }

    /// Whether `va` translates with at least the permissions in `req`.
    pub open spec fn can_translate(self, va: int, req: VmFlags) -> bool {
        &&& 0 <= va < self.mode.vpn_count() * PAGE_SIZE
        &&& self.mapped_at(va / PAGE_SIZE as int)
        &&& self.flags_at(va / PAGE_SIZE as int).spec_contains(req)
    }

    /// The physical address `va` translates to.
    pub open spec fn paddr_of(self, va: int) -> int
        recommends
            self.mapped_at(va / PAGE_SIZE as int),
    {
        self.ppn_at(va / PAGE_SIZE as int) * PAGE_SIZE + va % PAGE_SIZE as int
    }

    /// The byte the space holds at virtual address `va`, when the backing
    /// frame is owned by the space and its contents are tracked.
    pub open spec fn byte_at(self, va: int) -> Option<u8> {
        if self.mapped_at(va / PAGE_SIZE as int) {
            match self.area_at(va / PAGE_SIZE as int).bytes {
                Some(bs) => Some(bs[va - self.area_at(va / PAGE_SIZE as int).vpn * PAGE_SIZE]),
                None => None,
            }
        } else {
            None
        }
    }

    /// Whether the whole range `[vpn, vpn + pages)` is free of mappings.
    pub open spec fn range_free(self, vpn: int, pages: int) -> bool {
        forall|i: int|
            0 <= i < self.areas.len() ==> ((#[trigger] self.areas[i]).vpn + self.areas[i].pages
                <= vpn || vpn + pages <= self.areas[i].vpn)
    }

    /// Exec check of [`AddressSpace::range_free`].
    pub fn is_range_free(&self, vpn: u64, pages: u64) -> (r: bool)
        ensures
            r == self.range_free(vpn as int, pages as int),
    {
        let n = self.areas.len();
        let mut i: usize = 0;
        while i < n
            invariant
                0 <= i <= n,
                n == self.areas.len(),
                forall|j: int|
                    0 <= j < i ==> ((#[trigger] self.areas[j]).vpn + self.areas[j].pages <= vpn
                        || vpn + pages <= self.areas[j].vpn),
            decreases n - i,
        {
            let a = &self.areas[i];
            let end_below = a.pages <= vpn && a.vpn <= vpn - a.pages;
            let start_above = pages <= u64::MAX - vpn && vpn + pages <= a.vpn;
            if !(end_below || start_above) {
                return false;
            }
            i = i + 1;
        }
        true
    }

    /// A range is free exactly when none of its pages is mapped.
    pub proof fn lemma_range_free_iff(&self, vpn: int, pages: int)
        requires
            self.wf(),
            pages > 0,
        ensures
            self.range_free(vpn, pages) <==> (forall|p: int|
                vpn <= p < vpn + pages ==> !self.mapped_at(p)),
    {
        if self.range_free(vpn, pages) {
            assert forall|p: int| vpn <= p < vpn + pages implies !self.mapped_at(p) by {
                if self.mapped_at(p) {
                    let i = choose|i: int|
                        0 <= i < self.areas.len() && (#[trigger] self.areas[i]).covers(p);
                    assert(self.areas[i].vpn + self.areas[i].pages <= vpn || vpn + pages
                        <= self.areas[i].vpn);
                    assert(false);
                }
            }
        }
        if !self.range_free(vpn, pages) {
            let i = choose|i: int|
                0 <= i < self.areas.len() && !((#[trigger] self.areas[i]).vpn + self.areas[i].pages
                    <= vpn || vpn + pages <= self.areas[i].vpn);
            assert(self.areas[i].wf());
            let p = if self.areas[i].vpn > vpn {
                self.areas[i].vpn as int
            } else {
                vpn
            };
            assert(self.areas[i].covers(p));
            assert(self.mapped_at(p));
            assert(vpn <= p < vpn + pages);
        }
    }

    /// Find the area covering `vpn`.
    fn find_area(&self, vpn: u64) -> (r: Option<usize>)
        ensures
            match r {
                Some(i) => 0 <= i < self.areas.len() && self.areas[i as int].covers(vpn as int),
                None => !self.mapped_at(vpn as int),
            },
    {
        let n = self.areas.len();
        let mut i: usize = 0;
        while i < n
            invariant
                0 <= i <= n,
                n == self.areas.len(),
                forall|j: int| 0 <= j < i ==> !(#[trigger] self.areas[j]).covers(vpn as int),
            decreases n - i,
        {
            let a = &self.areas[i];
            if a.vpn <= vpn && vpn - a.vpn < a.pages {
                return Some(i);
            }
            i = i + 1;
        }
        None
    }

    /// Map `pages` pages starting at virtual page `vpn` onto the physical
    /// pages starting at `ppn`, without taking ownership of the frames.
    ///
    /// Overlapping an existing mapping is boot-fatal in the kernel, so a
    /// free range is required here; callers outside verified code check it
    /// first.
    pub fn map_extern(&mut self, vpn: u64, pages: u64, ppn: u64, flags: VmFlags)
        requires
            old(self).wf(),
            pages > 0,
            vpn + pages <= old(self).mode.vpn_count(),
            ppn + pages <= PPN_LIMIT,
            old(self).range_free(vpn as int, pages as int),
        ensures
            final(self).wf(),
            final(self).mode == old(self).mode,
            final(self).root_ppn == old(self).root_ppn,
            final(self).next_ppn == old(self).next_ppn,
            final(self).areas@ =~= old(self).areas@.push(
                MapArea { vpn, pages, ppn, flags, bytes: None },
            ),
            forall|p: int|
                vpn <= p < vpn + pages ==> final(self).mapped_at(p) && final(self).flags_at(p)
                    == flags && final(self).ppn_at(p) == ppn + (p - vpn),
            forall|p: int|
                !(vpn <= p < vpn + pages) ==> final(self).mapped_at(p) == old(self).mapped_at(p),
            forall|p: int|
                old(self).mapped_at(p) && !(vpn <= p < vpn + pages) ==> final(self).area_at(p)
                    == old(self).area_at(p),
            forall|va: int|
                !(vpn <= va / (PAGE_SIZE as int) && va / (PAGE_SIZE as int) < vpn + pages)
                    ==> final(self).byte_at(va) == old(self).byte_at(va),
    {
        let area = MapArea { vpn, pages, ppn, flags, bytes: None };
        self.areas.push(area);
        proof {
            self.lemma_push_preserves(*old(self), MapArea { vpn, pages, ppn, flags, bytes: None });
            assert forall|va: int|
                !(vpn <= va / (PAGE_SIZE as int) && va / (PAGE_SIZE as int) < vpn + pages) implies
                self.byte_at(va) == old(self).byte_at(va) by {
                let p = va / PAGE_SIZE as int;
                assert(self.mapped_at(p) == old(self).mapped_at(p));
            }
        }
    }

    /// Map the portal page at the reserved top slot: the same slot in every
    /// address space, with the global+execute+write+read permission set.
    pub fn map_portal(&mut self, portal_ppn: u64)
        requires
            old(self).wf(),
            portal_ppn + 1 <= PPN_LIMIT,
            old(self).range_free(old(self).mode.portal_vpn(), 1),
        ensures
            final(self).wf(),
            final(self).mode == old(self).mode,
            final(self).root_ppn == old(self).root_ppn,
            final(self).next_ppn == old(self).next_ppn,
            final(self).mapped_at(old(self).mode.portal_vpn()),
            final(self).flags_at(old(self).mode.portal_vpn()) == VmFlags::portal(),
            final(self).ppn_at(old(self).mode.portal_vpn()) == portal_ppn,
            forall|p: int|
                p != old(self).mode.portal_vpn() ==> final(self).mapped_at(p) == old(self).mapped_at(p),
            forall|p: int|
                old(self).mapped_at(p) && p != old(self).mode.portal_vpn() ==> final(self).area_at(p) == old(self).area_at(p),
            forall|va: int|
                va / (PAGE_SIZE as int) != old(self).mode.portal_vpn() ==> final(self).byte_at(va)
                    == old(self).byte_at(va),
    {
        let p = self.mode.portal_page();
        self.map_extern(p, 1, portal_ppn, VmFlags::build(true, true, true, false, true));
    }

    /// After pushing a fresh, disjoint, well-formed area, lookups inside the
    /// new range hit it and lookups outside it are unchanged.
    proof fn lemma_push_preserves(&self, pre: AddressSpace, a: MapArea)
        requires
            pre.wf(),
            a.wf(),
            a.vpn + a.pages <= pre.mode.vpn_count(),
            pre.range_free(a.vpn as int, a.pages as int),
            self.areas@ == pre.areas@.push(a),
            self.mode == pre.mode,
        ensures
            self.wf(),
            forall|p: int|
                a.vpn <= p < a.vpn + a.pages ==> self.mapped_at(p) && self.area_at(p) == a,
            forall|p: int|
                !(a.vpn <= p < a.vpn + a.pages) ==> self.mapped_at(p) == pre.mapped_at(p),
            forall|p: int|
                pre.mapped_at(p) && !(a.vpn <= p < a.vpn + a.pages) ==> self.area_at(p)
                    == pre.area_at(p),
    {
        let n = pre.areas.len() as int;
        assert(self.areas[n] == a);
        assert forall|p: int| a.vpn <= p < a.vpn + a.pages implies self.mapped_at(p)
            && self.area_at(p) == a by {
            assert(self.areas[n].covers(p));
            let i = choose|i: int|
                0 <= i < self.areas.len() && (#[trigger] self.areas[i]).covers(p);
            if i < n {
                assert(pre.areas[i].covers(p));
                assert(pre.range_free(a.vpn as int, a.pages as int));
                assert(false);
            }
        }
        assert forall|p: int| !(a.vpn <= p < a.vpn + a.pages) implies self.mapped_at(p)
            == pre.mapped_at(p) by {
            if self.mapped_at(p) {
                let i = choose|i: int|
                    0 <= i < self.areas.len() && (#[trigger] self.areas[i]).covers(p);
                assert(i < n);
                assert(pre.areas[i].covers(p));
            }
            if pre.mapped_at(p) {
                let i = choose|i: int|
                    0 <= i < pre.areas.len() && (#[trigger] pre.areas[i]).covers(p);
                assert(self.areas[i].covers(p));
            }
        }
        assert forall|p: int| pre.mapped_at(p) && !(a.vpn <= p < a.vpn + a.pages) implies
            self.area_at(p) == pre.area_at(p) by {
            let i = choose|i: int|
                0 <= i < pre.areas.len() && (#[trigger] pre.areas[i]).covers(p);
            assert(self.areas[i].covers(p));
            let j = choose|j: int|
                0 <= j < self.areas.len() && (#[trigger] self.areas[j]).covers(p);
            if j == n {
                assert(a.covers(p));
                assert(false);
            }
            if i != j {
                assert(pre.areas[i].disjoint(pre.areas[j]));
                assert(false);
            }
            let k = choose|k: int|
                0 <= k < pre.areas.len() && (#[trigger] pre.areas[k]).covers(p);
            if k != i {
                assert(pre.areas[i].disjoint(pre.areas[k]));
                assert(false);
            }
        }
    }

    /// Translate `va`, requiring the permissions in `req`; `None` when the
    /// page is unmapped or lacks a permission.
    pub fn translate(&self, va: u64, req: VmFlags) -> (r: Option<u64>)
        requires
            self.wf(),
        ensures
            r is Some <==> self.can_translate(va as int, req),
            r is Some ==> r.unwrap() == self.paddr_of(va as int),
    {
        if va >= self.mode.vpn_limit() * PAGE_SIZE {
            return None;
        }
        let vpn = va / PAGE_SIZE;
        match self.find_area(vpn) {
            Some(i) => {
                let a = &self.areas[i];
                if a.flags.contains(req) {
                    proof {
                        self.lemma_area_unique(vpn as int, i as int);
                        assert(self.areas[i as int].wf());
                    }
                    Some((a.ppn + (vpn - a.vpn)) * PAGE_SIZE + va % PAGE_SIZE)
                } else {
                    proof {
                        self.lemma_area_unique(vpn as int, i as int);
                    }
                    None
                }
            },
            None => None,
        }
    }

    /// In a well-formed space the covering area is unique: any witness index
    /// is the chosen one.
    proof fn lemma_area_unique(&self, vpn: int, i: int)
        requires
            self.wf(),
            0 <= i < self.areas.len(),
            self.areas[i].covers(vpn),
        ensures
            self.mapped_at(vpn),
            self.index_at(vpn) == i,
            self.area_at(vpn) == self.areas[i],
    {
        assert(self.mapped_at(vpn));
        let j = choose|j: int|
            0 <= j < self.areas.len() && (#[trigger] self.areas[j]).covers(vpn);
        if i != j {
            assert(self.areas[i].disjoint(self.areas[j]) || self.areas[j].disjoint(
                self.areas[i],
            ));
            assert(false);
        }
    }

    /// Index of the area covering `vpn` (unique in a well-formed space).
    pub open spec fn index_at(self, vpn: int) -> int {
        choose|i: int| 0 <= i < self.areas.len() && (#[trigger] self.areas[i]).covers(vpn)
    }

    /// Whether a byte at `va` is reachable with permissions `req` and backed
    /// by a frame whose contents the space owns.
    pub open spec fn can_access_byte(self, va: int, req: VmFlags) -> bool {
        self.can_translate(va, req) && self.byte_at(va) is Some
    }

    /// Whether all of `[va, va + len)` is reachable with `req` through owned
    /// frames.
    pub open spec fn can_access(self, va: int, len: int, req: VmFlags) -> bool {
        forall|x: int| va <= x < va + len ==> self.can_access_byte(x, req)
    }

    /// Map `pages` fresh frames at virtual page `vpn`, owned by the space,
    /// holding exactly `data`.
    pub fn map(&mut self, vpn: u64, pages: u64, data: Vec<u8>, flags: VmFlags)
        requires
            old(self).wf(),
            pages > 0,
            vpn + pages <= old(self).mode.vpn_count(),
            old(self).next_ppn + pages <= PPN_LIMIT,
            data@.len() == pages * PAGE_SIZE,
            old(self).range_free(vpn as int, pages as int),
        ensures
            final(self).wf(),
            final(self).mode == old(self).mode,
            final(self).root_ppn == old(self).root_ppn,
            final(self).next_ppn == old(self).next_ppn + pages,
            final(self).areas@ =~= old(self).areas@.push(
                MapArea { vpn, pages, ppn: old(self).next_ppn, flags, bytes: Some(data) },
            ),
            forall|p: int|
                vpn <= p < vpn + pages ==> final(self).mapped_at(p) && final(self).flags_at(p)
                    == flags,
            forall|p: int|
                !(vpn <= p < vpn + pages) ==> final(self).mapped_at(p) == old(self).mapped_at(p),
            forall|p: int|
                old(self).mapped_at(p) && !(vpn <= p < vpn + pages) ==> final(self).area_at(p)
                    == old(self).area_at(p),
            forall|va: int|
                vpn * PAGE_SIZE <= va < (vpn + pages) * PAGE_SIZE ==> final(self).byte_at(va)
                    == Some(data@[va - vpn * PAGE_SIZE]),
            forall|va: int|
                !(vpn <= va / (PAGE_SIZE as int) && va / (PAGE_SIZE as int) < vpn + pages) ==> final(self).byte_at(va)
                    == old(self).byte_at(va),
    {
        let ghost d = data@;
        let ppn = self.next_ppn;
        self.next_ppn = self.next_ppn + pages;
        let area = MapArea { vpn, pages, ppn, flags, bytes: Some(data) };
        self.areas.push(area);
        proof {
            let a = MapArea { vpn, pages, ppn, flags, bytes: self.areas[self.areas.len() - 1].bytes };
            self.lemma_push_preserves(*old(self), self.areas@.last());
            assert forall|va: int| vpn * PAGE_SIZE <= va < (vpn + pages) * PAGE_SIZE implies
                self.byte_at(va) == Some(d[va - vpn * PAGE_SIZE]) by {
                let p = va / PAGE_SIZE as int;
                assert(PAGE_SIZE as int * p + va % PAGE_SIZE as int == va);
                assert(vpn <= p < vpn + pages);
                assert(self.area_at(p) == self.areas@.last());
            }
            assert forall|va: int| !(vpn <= va / (PAGE_SIZE as int) && va / (PAGE_SIZE as int) < vpn + pages) implies
                self.byte_at(va) == old(self).byte_at(va) by {
                let p = va / PAGE_SIZE as int;
                assert(self.mapped_at(p) == old(self).mapped_at(p));
            }
        }
    }

    /// Read the byte at `va`, requiring permissions `req`; `None` when the
    /// page is unmapped, lacks a permission, or is not owned by the space.
    pub fn read_byte(&self, va: u64, req: VmFlags) -> (r: Option<u8>)
        requires
            self.wf(),
        ensures
            r is Some <==> self.can_access_byte(va as int, req),
            r is Some ==> r == self.byte_at(va as int),
    {
        if va >= self.mode.vpn_limit() * PAGE_SIZE {
            return None;
        }
        let vpn = va / PAGE_SIZE;
        match self.find_area(vpn) {
            None => None,
            Some(i) => {
                proof {
                    self.lemma_area_unique(vpn as int, i as int);
                    assert(self.areas[i as int].wf());
                }
                let a = &self.areas[i];
                if !a.flags.contains(req) {
                    return None;
                }
                match &a.bytes {
                    None => None,
                    Some(bs) => {
                        let idx = (va - a.vpn * PAGE_SIZE) as usize;
                        Some(bs[idx])
                    },
                }
            },
        }
    }

    /// Whether all of `[va, va + len)` is reachable with `req` through
    /// frames the space owns.
    pub fn check_range(&self, va: u64, len: usize, req: VmFlags) -> (r: bool)
        requires
            self.wf(),
        ensures
            r == self.can_access(va as int, len as int, req),
    {
        if len == 0 {
            return true;
        }
        let limit = self.mode.vpn_limit() * PAGE_SIZE;
        if va >= limit || len as u64 > limit - va {
            proof {
                assert(!self.can_access_byte(va as int + (len - 1), req));
            }
            return false;
        }
        let mut k: usize = 0;
        while k < len
            invariant
                self.wf(),
                0 <= k <= len,
                va + len <= self.mode.vpn_count() * PAGE_SIZE,
                forall|x: int| va <= x < va + k ==> self.can_access_byte(x, req),
            decreases len - k,
        {
            if self.read_byte(va + k as u64, req).is_none() {
                proof {
                    assert(!self.can_access_byte(va as int + k as int, req));
                }
                return false;
            }
            k = k + 1;
        }
        true
    }

    /// Read `len` bytes starting at `va`, requiring permissions `req` on
    /// every byte; `None` when any byte is unreachable.
    pub fn read_bytes(&self, va: u64, len: usize, req: VmFlags) -> (r: Option<Vec<u8>>)
        requires
            self.wf(),
        ensures
            r is Some <==> self.can_access(va as int, len as int, req),
            r is Some ==> r.unwrap()@.len() == len,
            r is Some ==> forall|k: int|
                0 <= k < len ==> r.unwrap()@[k] == self.byte_at(va + k).unwrap(),
    {
        if len == 0 {
            return Some(Vec::new());
        }
        let limit = self.mode.vpn_limit() * PAGE_SIZE;
        if va >= limit || len as u64 > limit - va {
            proof {
                assert(!self.can_access_byte(va as int + (len - 1), req));
            }
            return None;
        }
        let mut out: Vec<u8> = Vec::new();
        let mut k: usize = 0;
        while k < len
            invariant
                self.wf(),
                0 <= k <= len,
                va + len <= self.mode.vpn_count() * PAGE_SIZE,
                out@.len() == k,
                forall|x: int| va <= x < va + k ==> self.can_access_byte(x, req),
                forall|j: int| 0 <= j < k ==> out@[j] == self.byte_at(va + j).unwrap(),
            decreases len - k,
        {
            match self.read_byte(va + k as u64, req) {
                Some(b) => {
                    out.push(b);
                    k = k + 1;
                },
                None => {
                    proof {
                        assert(!self.can_access_byte(va as int + k as int, req));
                    }
                    return None;
                },
            }
        }
        Some(out)
    }

    /// After replacing the area at index `i` by one with the same range,
    /// permissions and backing pages, every lookup keeps its index, so only
    /// the owned bytes of that area can differ.
    proof fn lemma_update_area(&self, pre: AddressSpace, i: int, a2: MapArea)
        requires
            pre.wf(),
            0 <= i < pre.areas.len(),
            a2.wf(),
            a2.vpn == pre.areas[i].vpn,
            a2.pages == pre.areas[i].pages,
            a2.ppn == pre.areas[i].ppn,
            a2.flags == pre.areas[i].flags,
            self.areas@ =~= pre.areas@.update(i, a2),
            self.mode == pre.mode,
        ensures
            self.wf(),
            forall|p: int| self.mapped_at(p) == pre.mapped_at(p),
            forall|p: int|
                pre.mapped_at(p) ==> self.flags_at(p) == pre.flags_at(p) && self.ppn_at(p)
                    == pre.ppn_at(p),
            forall|p: int|
                pre.mapped_at(p) && pre.index_at(p) != i ==> self.area_at(p) == pre.area_at(p),
            forall|p: int|
                pre.mapped_at(p) && pre.index_at(p) == i ==> self.area_at(p) == a2,
    {
        assert forall|p: int| self.mapped_at(p) == pre.mapped_at(p) by {
            if self.mapped_at(p) {
                let j = choose|j: int|
                    0 <= j < self.areas.len() && (#[trigger] self.areas[j]).covers(p);
                assert(pre.areas[j].covers(p));
            }
            if pre.mapped_at(p) {
                let j = choose|j: int|
                    0 <= j < pre.areas.len() && (#[trigger] pre.areas[j]).covers(p);
                assert(self.areas[j].covers(p));
            }
        }
        assert forall|p: int| pre.mapped_at(p) implies {
            &&& self.flags_at(p) == pre.flags_at(p)
            &&& self.ppn_at(p) == pre.ppn_at(p)
            &&& (pre.index_at(p) != i ==> self.area_at(p) == pre.area_at(p))
            &&& (pre.index_at(p) == i ==> self.area_at(p) == a2)
        } by {
            let j = pre.index_at(p);
            assert(pre.areas[j].covers(p));
            pre.lemma_area_unique(p, j);
            assert(self.areas[j].covers(p));
            self.lemma_area_unique(p, j);
        }
    }

    /// Store byte `b` at `va`, requiring permissions `req`; `false` (and no
    /// change) when the byte is unreachable or not owned by the space.
    pub fn write_byte(&mut self, va: u64, b: u8, req: VmFlags) -> (r: bool)
        requires
            old(self).wf(),
        ensures
            final(self).wf(),
            final(self).mode == old(self).mode,
            final(self).root_ppn == old(self).root_ppn,
            final(self).next_ppn == old(self).next_ppn,
            r == old(self).can_access_byte(va as int, req),
            forall|p: int| final(self).mapped_at(p) == old(self).mapped_at(p),
            forall|p: int|
                old(self).mapped_at(p) ==> final(self).flags_at(p) == old(self).flags_at(p)
                    && final(self).ppn_at(p) == old(self).ppn_at(p),
            r ==> final(self).byte_at(va as int) == Some(b),
            forall|x: int| x != va ==> final(self).byte_at(x) == old(self).byte_at(x),
            !r ==> final(self).byte_at(va as int) == old(self).byte_at(va as int),
    {
        if va >= self.mode.vpn_limit() * PAGE_SIZE {
            return false;
        }
        let vpn = va / PAGE_SIZE;
        let i = match self.find_area(vpn) {
            None => {
                return false;
            },
            Some(i) => i,
        };
        proof {
            self.lemma_area_unique(vpn as int, i as int);
            assert(self.areas[i as int].wf());
        }
        if !self.areas[i].flags.contains(req) {
            return false;
        }
        if self.areas[i].bytes.is_none() {
            return false;
        }
        let ghost pre = *self;
        let mut a = self.areas.remove(i);
        let mut bs = a.bytes.take().unwrap();
        let idx = (va - a.vpn * PAGE_SIZE) as usize;
        bs.set(idx, b);
        a.bytes = Some(bs);
        self.areas.insert(i, a);
        proof {
            let a2 = self.areas[i as int];
            assert(self.areas@ =~= pre.areas@.update(i as int, a2));
            self.lemma_update_area(pre, i as int, a2);
            assert(self.byte_at(va as int) == Some(b)) by {
                assert(pre.index_at(vpn as int) == i);
                assert(self.area_at(vpn as int) == a2);
            }
            assert forall|x: int| x != va implies self.byte_at(x) == pre.byte_at(x) by {
                let p = x / PAGE_SIZE as int;
                if pre.mapped_at(p) {
                    if pre.index_at(p) == i {
                        assert(self.area_at(p) == a2);
                        assert(pre.area_at(p) == pre.areas[i as int]);
                        assert(x - pre.area_at(p).vpn * PAGE_SIZE != va - pre.area_at(p).vpn
                            * PAGE_SIZE);
                    }
                }
            }
        }
        true
    }

    /// Store `data` at `[va, va + data.len())`, requiring permissions `req`
    /// on every byte; `false` (and no change) when any byte is unreachable.
    pub fn write_bytes(&mut self, va: u64, data: &Vec<u8>, req: VmFlags) -> (r: bool)
        requires
            old(self).wf(),
        ensures
            final(self).wf(),
            final(self).mode == old(self).mode,
            final(self).root_ppn == old(self).root_ppn,
            final(self).next_ppn == old(self).next_ppn,
            r == old(self).can_access(va as int, data@.len() as int, req),
            forall|p: int| final(self).mapped_at(p) == old(self).mapped_at(p),
            forall|p: int|
                old(self).mapped_at(p) ==> final(self).flags_at(p) == old(self).flags_at(p)
                    && final(self).ppn_at(p) == old(self).ppn_at(p),
            r ==> forall|k: int|
                0 <= k < data@.len() ==> final(self).byte_at(va + k) == Some(data@[k]),
            forall|x: int|
                !(va <= x < va + data@.len()) ==> final(self).byte_at(x) == old(self).byte_at(x),
            !r ==> forall|x: int| final(self).byte_at(x) == old(self).byte_at(x),
    {
        let len = data.len();
        if !self.check_range(va, len, req) {
            return false;
        }
        if len == 0 {
            return true;
        }
        proof {
            assert(old(self).can_access_byte(va as int + (len - 1), req));
        }
        let mut k: usize = 0;
        while k < len
            invariant
                self.wf(),
                self.mode == old(self).mode,
                self.root_ppn == old(self).root_ppn,
                self.next_ppn == old(self).next_ppn,
                0 <= k <= len,
                len == data@.len(),
                old(self).can_access(va as int, len as int, req),
                va + len <= u64::MAX,
                forall|p: int| self.mapped_at(p) == old(self).mapped_at(p),
                forall|p: int|
                    old(self).mapped_at(p) ==> self.flags_at(p) == old(self).flags_at(p)
                        && self.ppn_at(p) == old(self).ppn_at(p),
                forall|j: int| 0 <= j < k ==> self.byte_at(va + j) == Some(data@[j]),
                forall|x: int| !(va <= x < va + k) ==> self.byte_at(x) == old(self).byte_at(x),
            decreases len - k,
        {
            let ghost mid = *self;
            let ok = self.write_byte(va + k as u64, data[k], req);
            proof {
                assert(old(self).can_access_byte(va as int + k as int, req));
                assert(mid.can_access_byte(va as int + k as int, req)) by {
                    assert(mid.byte_at(va as int + k as int) == old(self).byte_at(
                        va as int + k as int,
                    ));
                }
                assert(ok);
            }
            k = k + 1;
        }
        true
    }
}

/// The bytes a space holds at `[va, va + len)`, where they are tracked.
pub open spec fn read_seq(s: AddressSpace, va: int, len: int) -> Seq<u8> {
    Seq::new(
        if len >= 0 {
            len
        } else {
            0
        } as nat,
        |k: int| s.byte_at(va + k).unwrap(),
    )
}

} // verus!
