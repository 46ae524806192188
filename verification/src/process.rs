//! Process loader and execution context.
//!
//! A process is created from one candidate ELF image: the image must be an
//! executable for the target instruction set, every loadable segment is
//! mapped with its in-page offset preserved and its tail zero-filled, a
//! fixed two-page zeroed stack is mapped below a fixed high boundary, and
//! the initial register snapshot points at the image's entry with the
//! translation-root token of the fresh address space.

use vstd::prelude::*;
use vstd::pervasive::VecAdditionalExecFns;
use crate::elf::{
    header_ok, entry_of, phnum_of, ph_in_bounds, parse_header, read_segment, seg_type, seg_offset,
    seg_vaddr, seg_filesz, seg_memsz, seg_flags, PT_LOAD,
};
use crate::kernel::{page_floor, page_ceil};
use crate::vm::{AddressSpace, VmFlags, VmMode, PAGE_SIZE, PPN_LIMIT};

verus! {

/// Whether program header `i` names a loadable segment that occupies
/// memory; headers outside the file are skipped, as are empty segments.
pub open spec fn is_load(b: Seq<u8>, mode: VmMode, i: int) -> bool {
    &&& ph_in_bounds(b, mode, i)
    &&& seg_type(b, mode, i) == PT_LOAD
    &&& seg_memsz(b, mode, i) > 0
}

/// First page of segment `i`.
pub open spec fn seg_page_start(b: Seq<u8>, mode: VmMode, i: int) -> int {
    page_floor(seg_vaddr(b, mode, i))
}

/// First page past segment `i`.
pub open spec fn seg_page_end(b: Seq<u8>, mode: VmMode, i: int) -> int {
    page_ceil(seg_vaddr(b, mode, i) + seg_memsz(b, mode, i))
}

/// Whether loadable segment `i` can be mapped: file offset and virtual
/// address agree inside the page, the file part lies within the image and
/// within the segment, the segment fits in memory addressable on either
/// word width, and the pages fit below the stack.
pub open spec fn seg_ok(b: Seq<u8>, mode: VmMode, i: int) -> bool {
    &&& seg_offset(b, mode, i) % (PAGE_SIZE as int) == seg_vaddr(b, mode, i) % (PAGE_SIZE as int)
    &&& seg_filesz(b, mode, i) <= seg_memsz(b, mode, i)
    &&& seg_memsz(b, mode, i) < 0x4000_0000
    &&& seg_offset(b, mode, i) + seg_filesz(b, mode, i) <= b.len()
    &&& seg_page_end(b, mode, i) <= mode.stack_top_vpn() - 2
}

/// Whether the bytes are an image the loader accepts: a valid executable
/// header for the mode, every loadable segment mappable, and no two
/// loadable segments sharing a page.
pub open spec fn elf_loadable(b: Seq<u8>, mode: VmMode) -> bool {
    &&& header_ok(b, mode)
    &&& forall|i: int|
        0 <= i < phnum_of(b, mode) && #[trigger] is_load(b, mode, i) ==> seg_ok(b, mode, i)
    &&& forall|i: int, j: int|
        0 <= i < j < phnum_of(b, mode) && #[trigger] is_load(b, mode, i) && #[trigger] is_load(
            b,
            mode,
            j,
        ) ==> seg_page_end(b, mode, i) <= seg_page_start(b, mode, j) || seg_page_end(b, mode, j)
            <= seg_page_start(b, mode, i)
}

/// Whether `va` lies in the memory extent of segment `i`.
pub open spec fn seg_range(b: Seq<u8>, mode: VmMode, i: int, va: int) -> bool {
    seg_vaddr(b, mode, i) <= va < seg_vaddr(b, mode, i) + seg_memsz(b, mode, i)
}

/// Whether page `p` lies in the page extent of segment `i`.
pub open spec fn seg_page_range(b: Seq<u8>, mode: VmMode, i: int, p: int) -> bool {
    seg_page_start(b, mode, i) <= p < seg_page_end(b, mode, i)
}

/// The byte segment `i` puts at `va`: the file byte at the matching offset
/// inside the copied part, zero in the zero-filled tail.
pub open spec fn seg_byte(b: Seq<u8>, mode: VmMode, i: int, va: int) -> u8 {
    if va < seg_vaddr(b, mode, i) + seg_filesz(b, mode, i) {
        b[seg_offset(b, mode, i) + (va - seg_vaddr(b, mode, i))]
    } else {
        0
    }
}

/// Page permissions of a segment: the segment's read/write/execute bits
/// plus the user-accessible bit.
pub open spec fn seg_vmflags(f: int) -> VmFlags {
    VmFlags {
        valid: true,
        readable: (f / 4) % 2 == 1,
        writable: (f / 2) % 2 == 1,
        executable: f % 2 == 1,
        user: true,
        global: false,
    }
}

/// A register-file snapshot plus the translation-root token naming the
/// address space it belongs to.
pub struct ExecutionContext {
    /// Saved program counter.
    pub pc: u64,
    /// Saved stack pointer.
    pub sp: u64,
    /// Argument/return registers a0 to a7; a7 carries the syscall id, a0
    /// the return value.
    pub a0: u64,
    pub a1: u64,
    pub a2: u64,
    pub a3: u64,
    pub a4: u64,
    pub a5: u64,
    pub a6: u64,
    pub a7: u64,
    /// Translation-root token of the owning address space.
    pub satp: u64,
}

impl ExecutionContext {
    /// Advance the saved program counter past the trapping call instruction.
    pub fn move_next(&mut self)
        requires
            old(self).pc + 4 <= u64::MAX,
        ensures
            final(self).pc == old(self).pc + 4,
            final(self).sp == old(self).sp,
            final(self).a0 == old(self).a0,
            final(self).a1 == old(self).a1,
            final(self).a2 == old(self).a2,
            final(self).a3 == old(self).a3,
            final(self).a4 == old(self).a4,
            final(self).a5 == old(self).a5,
            final(self).a6 == old(self).a6,
            final(self).a7 == old(self).a7,
            final(self).satp == old(self).satp,
    {
        self.pc = self.pc + 4;
    }
}

/// A process: one execution context and one address space, never shared.
pub struct Process {
    pub context: ExecutionContext,
    pub address_space: AddressSpace,
}

impl Process {
    /// Well-formed: the space is well-formed and the context's token names
    /// the process's own page-table root.
    pub open spec fn wf(self) -> bool {
        &&& self.address_space.wf()
        &&& self.address_space.root_ppn < 0x8000_0000
        &&& self.context.satp == self.address_space.mode.satp(self.address_space.root_ppn as int)
    }

    /// Load one candidate ELF image into a fresh address space.
    ///
    /// Produces a process exactly when the image is loadable: the saved
    /// program counter is the image's entry point, the stack pointer is the
    /// top of the mapped two-page stack, the token encodes the new root,
    /// every loadable segment's bytes sit at their virtual addresses with
    /// the tail zero-filled, and the stack is zeroed, user-writable memory.
    #[verifier::rlimit(100)]
    pub fn new(elf: &Vec<u8>, mode: VmMode, root_ppn: u64) -> (r: Option<Process>)
        requires
            root_ppn < 0x8000_0000,
        ensures
            r is Some <==> elf_loadable(elf@, mode),
            r matches Some(p) ==> {
                &&& p.wf()
                &&& p.address_space.mode == mode
                &&& p.address_space.root_ppn == root_ppn
                &&& p.context.pc == entry_of(elf@, mode)
                &&& p.context.sp == mode.stack_top_vpn() * PAGE_SIZE
                &&& p.context.satp == mode.satp(root_ppn as int)
                &&& p.context.a0 == 0 && p.context.a7 == 0
                &&& forall|va: int|
                    (mode.stack_top_vpn() - 2) * PAGE_SIZE <= va < mode.stack_top_vpn()
                        * PAGE_SIZE ==> p.address_space.byte_at(va) == Some(0u8)
                        && p.address_space.flags_at(va / (PAGE_SIZE as int))
                        == VmFlags::user_stack()
                &&& forall|i: int, va: int|
                    0 <= i < phnum_of(elf@, mode) && #[trigger] is_load(elf@, mode, i)
                        && #[trigger] seg_range(elf@, mode, i, va) ==> p.address_space.byte_at(va)
                        == Some(seg_byte(elf@, mode, i, va))
                &&& forall|i: int, pg: int|
                    0 <= i < phnum_of(elf@, mode) && #[trigger] is_load(elf@, mode, i)
                        && #[trigger] seg_page_range(elf@, mode, i, pg)
                        ==> p.address_space.mapped_at(pg) && p.address_space.flags_at(pg)
                        == seg_vmflags(seg_flags(elf@, mode, i))
            },
    {
        let ghost b = elf@;
        let h = match parse_header(elf, mode) {
            None => {
                return None;
            },
            Some(h) => h,
        };
        let mut space = AddressSpace::new(mode, root_ppn, 0);
        let stack_base = mode.stack_top_page() - 2;
        let phnum = h.phnum;
        let mut i: u16 = 0;
        while i < phnum
            invariant
                space.wf(),
                space.mode == mode,
                space.root_ppn == root_ppn,
                b == elf@,
                header_ok(b, mode),
                phnum == phnum_of(b, mode),
                root_ppn < 0x8000_0000,
                stack_base == mode.stack_top_vpn() - 2,
                0 <= i <= phnum,
                space.next_ppn <= (i as int) * 0x400_0000,
                forall|p: int|
                    #[trigger] space.mapped_at(p) <==> exists|j: int|
                        0 <= j < i && #[trigger] is_load(b, mode, j) && seg_page_range(
                            b,
                            mode,
                            j,
                            p,
                        ),
                forall|j: int| 0 <= j < i && #[trigger] is_load(b, mode, j) ==> seg_ok(b, mode, j),
                forall|j: int, k: int|
                    0 <= j < k < i && #[trigger] is_load(b, mode, j) && #[trigger] is_load(
                        b,
                        mode,
                        k,
                    ) ==> seg_page_end(b, mode, j) <= seg_page_start(b, mode, k) || seg_page_end(
                        b,
                        mode,
                        k,
                    ) <= seg_page_start(b, mode, j),
                forall|j: int, va: int|
                    0 <= j < i && #[trigger] is_load(b, mode, j) && #[trigger] seg_range(
                        b,
                        mode,
                        j,
                        va,
                    ) ==> space.byte_at(va) == Some(seg_byte(b, mode, j, va)),
                forall|j: int, pg: int|
                    0 <= j < i && #[trigger] is_load(b, mode, j) && #[trigger] seg_page_range(
                        b,
                        mode,
                        j,
                        pg,
                    ) ==> space.mapped_at(pg) && space.flags_at(pg) == seg_vmflags(
                        seg_flags(b, mode, j),
                    ),
            decreases phnum - i,
        {
            let seg = match read_segment(elf, mode, i) {
                None => {
                    proof {
                        assert(!is_load(b, mode, i as int));
                    }
                    i = i + 1;
                    continue ;
                },
                Some(s) => s,
            };
            if !(seg.ptype == PT_LOAD && seg.memsz > 0) {
                proof {
                    assert(!is_load(b, mode, i as int));
                }
                i = i + 1;
                continue ;
            }
            proof {
                assert(is_load(b, mode, i as int));
            }
            // the binary-format invariant: file offset and virtual address
            // share the page-internal offset
            if seg.offset % PAGE_SIZE != seg.vaddr % PAGE_SIZE {
                proof {
                    assert(!seg_ok(b, mode, i as int));
                }
                return None;
            }
            if seg.filesz > seg.memsz {
                proof {
                    assert(!seg_ok(b, mode, i as int));
                }
                return None;
            }
            if seg.memsz >= 0x4000_0000 {
                proof {
                    assert(!seg_ok(b, mode, i as int));
                }
                return None;
            }
            let len = elf.len() as u64;
            if seg.offset > len || seg.filesz > len - seg.offset {
                proof {
                    assert(!seg_ok(b, mode, i as int));
                }
                return None;
            }
            if seg.vaddr > u64::MAX - seg.memsz || seg.vaddr + seg.memsz > u64::MAX - PAGE_SIZE {
                proof {
                    assert(seg_page_end(b, mode, i as int) > mode.stack_top_vpn() - 2) by {
                        vstd::arithmetic::div_mod::lemma_div_is_ordered(
                            0x8000_0000_0000u64 as int,
                            seg_vaddr(b, mode, i as int) + seg_memsz(b, mode, i as int)
                                + PAGE_SIZE - 1,
                            PAGE_SIZE as int,
                        );
                    }
                    assert(!seg_ok(b, mode, i as int));
                }
                return None;
            }
            let s_page = seg.vaddr / PAGE_SIZE;
            let e_page = (seg.vaddr + seg.memsz + PAGE_SIZE - 1) / PAGE_SIZE;
            if e_page > stack_base {
                proof {
                    assert(!seg_ok(b, mode, i as int));
                }
                return None;
            }
            proof {
                assert(s_page < e_page) by {
                    vstd::arithmetic::div_mod::lemma_div_is_ordered(
                        seg_vaddr(b, mode, i as int) + PAGE_SIZE,
                        seg_vaddr(b, mode, i as int) + seg_memsz(b, mode, i as int) + PAGE_SIZE
                            - 1,
                        PAGE_SIZE as int,
                    );
                    vstd::arithmetic::div_mod::lemma_div_plus_one(
                        seg_vaddr(b, mode, i as int),
                        PAGE_SIZE as int,
                    );
                }
            }
            let pages = e_page - s_page;
            if !space.is_range_free(s_page, pages) {
                proof {
                    space.lemma_range_free_iff(s_page as int, pages as int);
                    let p = choose|p: int|
                        s_page <= p < s_page + pages && #[trigger] space.mapped_at(p);
                    let j = choose|j: int|
                        0 <= j < i && #[trigger] is_load(b, mode, j) && seg_page_range(
                            b,
                            mode,
                            j,
                            p,
                        );
                    assert(is_load(b, mode, j) && is_load(b, mode, i as int));
                    assert(!(seg_page_end(b, mode, j) <= seg_page_start(b, mode, i as int)
                        || seg_page_end(b, mode, i as int) <= seg_page_start(b, mode, j)));
                    assert(!elf_loadable(b, mode));
                }
                return None;
            }
            proof {
                space.lemma_range_free_iff(s_page as int, pages as int);
                assert forall|j: int| 0 <= j < i && #[trigger] is_load(b, mode, j) implies
                    seg_page_end(b, mode, j) <= seg_page_start(b, mode, i as int) || seg_page_end(
                    b,
                    mode,
                    i as int,
                ) <= seg_page_start(b, mode, j) by {
                    if !(seg_page_end(b, mode, j) <= s_page as int || e_page as int
                        <= seg_page_start(b, mode, j)) {
                        lemma_seg_nonempty(b, mode, j);
                        let p = if seg_page_start(b, mode, j) > s_page as int {
                            seg_page_start(b, mode, j)
                        } else {
                            s_page as int
                        };
                        assert(seg_page_range(b, mode, j, p));
                        assert(space.mapped_at(p));
                        assert(s_page <= p < s_page + pages);
                        assert(false);
                    }
                }
                assert(space.next_ppn + pages <= PPN_LIMIT);
            }
            proof {
                assert((e_page - s_page) * PAGE_SIZE < 0x8000_0000) by {
                    let v = seg_vaddr(b, mode, i as int);
                    let m = seg_memsz(b, mode, i as int);
                    assert(PAGE_SIZE as int * ((v + m + PAGE_SIZE - 1) / (PAGE_SIZE as int)) + (v
                        + m + PAGE_SIZE - 1) % PAGE_SIZE as int == v + m + PAGE_SIZE - 1);
                    assert(PAGE_SIZE as int * (v / (PAGE_SIZE as int)) + v % PAGE_SIZE as int
                        == v);
                }
            }
            let inpage = (seg.vaddr - s_page * PAGE_SIZE) as usize;
            let data = segment_pages(
                elf,
                seg.offset as usize,
                seg.filesz as usize,
                inpage,
                (pages * PAGE_SIZE) as usize,
            );
            let ghost d = data@;
            let fl = VmFlags::build(
                (seg.flags / 4) % 2 == 1,
                (seg.flags / 2) % 2 == 1,
                seg.flags % 2 == 1,
                true,
                false,
            );
            let ghost pre = space;
            space.map(s_page, pages, data, fl);
            proof {
                lemma_after_segment_map(
                    pre,
                    space,
                    b,
                    mode,
                    i as int,
                    d,
                    s_page as int,
                    e_page as int,
                );
            }
            i = i + 1;
        }
        // the fixed two-page, zero-initialized user stack below the boundary
        let stack_data = byte_fill(0, (2 * PAGE_SIZE) as usize);
        proof {
            space.lemma_range_free_iff(stack_base as int, 2);
            assert forall|p: int| stack_base <= p < stack_base + 2 implies !space.mapped_at(
                p,
            ) by {
                if space.mapped_at(p) {
                    let j = choose|j: int|
                        0 <= j < phnum && #[trigger] is_load(b, mode, j) && seg_page_range(
                            b,
                            mode,
                            j,
                            p,
                        );
                    assert(seg_ok(b, mode, j));
                }
            }
        }
        let ghost pre_stack = space;
        space.map(stack_base, 2, stack_data, VmFlags::build(true, true, false, true, false));
        let sp = mode.stack_top_page() * PAGE_SIZE;
        let satp = mode.encode_satp(root_ppn);
        let context = ExecutionContext {
            pc: h.entry,
            sp,
            a0: 0,
            a1: 0,
            a2: 0,
            a3: 0,
            a4: 0,
            a5: 0,
            a6: 0,
            a7: 0,
            satp,
        };
        proof {
            assert forall|j: int, va: int|
                0 <= j < phnum_of(b, mode) && #[trigger] is_load(b, mode, j) && #[trigger]
                    seg_range(b, mode, j, va) implies space.byte_at(va) == Some(
                seg_byte(b, mode, j, va),
            ) by {
                let pg = va / PAGE_SIZE as int;
                assert(PAGE_SIZE as int * pg + va % PAGE_SIZE as int == va);
                assert(seg_page_range(b, mode, j, pg)) by {
                    lemma_addr_page_in_segment(b, mode, j, va);
                }
                assert(seg_ok(b, mode, j));
                assert(!(stack_base <= pg < stack_base + 2));
                assert(pre_stack.byte_at(va) == Some(seg_byte(b, mode, j, va)));
            }
            assert forall|j: int, pg: int|
                0 <= j < phnum_of(b, mode) && #[trigger] is_load(b, mode, j) && #[trigger]
                    seg_page_range(b, mode, j, pg) implies space.mapped_at(pg) && space.flags_at(
                pg,
            ) == seg_vmflags(seg_flags(b, mode, j)) by {
                assert(seg_ok(b, mode, j));
                assert(!(stack_base <= pg < stack_base + 2));
                assert(pre_stack.mapped_at(pg));
                assert(space.area_at(pg) == pre_stack.area_at(pg));
            }
            assert forall|va: int|
                (mode.stack_top_vpn() - 2) * PAGE_SIZE <= va < mode.stack_top_vpn()
                    * PAGE_SIZE implies space.byte_at(va) == Some(0u8) && space.flags_at(
                va / (PAGE_SIZE as int),
            ) == VmFlags::user_stack() by {
                let pg = va / PAGE_SIZE as int;
                assert(PAGE_SIZE as int * pg + va % PAGE_SIZE as int == va);
                assert(stack_base <= pg < stack_base + 2);
                assert(stack_base * PAGE_SIZE <= va < (stack_base + 2) * PAGE_SIZE);
                assert(space.byte_at(va) == Some(stack_data@[va - stack_base * PAGE_SIZE]));
                assert(0 <= va - stack_base * PAGE_SIZE < 2 * PAGE_SIZE);
            }
            assert(elf_loadable(b, mode));
        }
        Some(Process { context, address_space: space })
    }
}

/// A loadable segment spans at least one page.
proof fn lemma_seg_nonempty(b: Seq<u8>, mode: VmMode, i: int)
    requires
        seg_memsz(b, mode, i) > 0,
    ensures
        seg_page_start(b, mode, i) < seg_page_end(b, mode, i),
{
    vstd::arithmetic::div_mod::lemma_div_plus_one(seg_vaddr(b, mode, i), PAGE_SIZE as int);
    vstd::arithmetic::div_mod::lemma_div_is_ordered(
        seg_vaddr(b, mode, i) + PAGE_SIZE,
        seg_vaddr(b, mode, i) + seg_memsz(b, mode, i) + PAGE_SIZE - 1,
        PAGE_SIZE as int,
    );
}

/// The page of every address inside a segment lies in the segment's page
/// range.
proof fn lemma_addr_page_in_segment(b: Seq<u8>, mode: VmMode, i: int, va: int)
    requires
        seg_range(b, mode, i, va),
    ensures
        seg_page_range(b, mode, i, va / (PAGE_SIZE as int)),
{
    let pg = va / (PAGE_SIZE as int);
    assert(PAGE_SIZE as int * pg + va % PAGE_SIZE as int == va);
    vstd::arithmetic::div_mod::lemma_div_is_ordered(
        seg_vaddr(b, mode, i),
        va,
        PAGE_SIZE as int,
    );
    vstd::arithmetic::div_mod::lemma_div_is_ordered(
        va,
        seg_vaddr(b, mode, i) + seg_memsz(b, mode, i) - 1,
        PAGE_SIZE as int,
    );
    vstd::arithmetic::div_mod::lemma_div_is_ordered(
        seg_vaddr(b, mode, i) + seg_memsz(b, mode, i) - 1,
        seg_vaddr(b, mode, i) + seg_memsz(b, mode, i) + PAGE_SIZE - 1,
        PAGE_SIZE as int,
    );
    vstd::arithmetic::div_mod::lemma_div_plus_one(
        seg_vaddr(b, mode, i) + seg_memsz(b, mode, i) - 1,
        PAGE_SIZE as int,
    );
}

/// After mapping segment `i`, the space holds the segment's bytes and
/// flags, keeps everything it held, and its mapped pages are exactly the
/// previous ones plus the segment's page range.
proof fn lemma_after_segment_map(
    pre: AddressSpace,
    post: AddressSpace,
    b: Seq<u8>,
    mode: VmMode,
    i: int,
    d: Seq<u8>,
    s_page: int,
    e_page: int,
)
    requires
        is_load(b, mode, i),
        s_page == seg_page_start(b, mode, i),
        e_page == seg_page_end(b, mode, i),
        s_page < e_page,
        seg_offset(b, mode, i) % (PAGE_SIZE as int) == seg_vaddr(b, mode, i) % (
        PAGE_SIZE as int),
        seg_offset(b, mode, i) + seg_filesz(b, mode, i) <= b.len(),
        seg_filesz(b, mode, i) <= seg_memsz(b, mode, i),
        d.len() == (e_page - s_page) * PAGE_SIZE,
        // the assembled page data: file bytes at the in-page offset, zero elsewhere
        forall|x: int|
            seg_vaddr(b, mode, i) - s_page * PAGE_SIZE <= x < seg_vaddr(b, mode, i) - s_page
                * PAGE_SIZE + seg_filesz(b, mode, i) ==> d[x] == b[seg_offset(b, mode, i) + (x - (
            seg_vaddr(b, mode, i) - s_page * PAGE_SIZE))],
        forall|x: int|
            0 <= x < d.len() && !(seg_vaddr(b, mode, i) - s_page * PAGE_SIZE <= x < seg_vaddr(
                b,
                mode,
                i,
            ) - s_page * PAGE_SIZE + seg_filesz(b, mode, i)) ==> d[x] == 0,
        // what map() ensured
        post.wf(),
        post.mode == pre.mode,
        forall|p: int|
            s_page <= p < e_page ==> post.mapped_at(p) && post.flags_at(p) == seg_vmflags(
                seg_flags(b, mode, i),
            ),
        forall|p: int| !(s_page <= p < e_page) ==> post.mapped_at(p) == pre.mapped_at(p),
        forall|p: int|
            pre.mapped_at(p) && !(s_page <= p < e_page) ==> post.area_at(p) == pre.area_at(p),
        forall|va: int|
            s_page * PAGE_SIZE <= va < e_page * PAGE_SIZE ==> post.byte_at(va) == Some(
                d[va - s_page * PAGE_SIZE],
            ),
        forall|va: int|
            !(s_page <= va / (PAGE_SIZE as int) && va / (PAGE_SIZE as int) < e_page)
                ==> post.byte_at(va) == pre.byte_at(va),
    ensures
        forall|va: int|
            #[trigger] seg_range(b, mode, i, va) ==> post.byte_at(va) == Some(
                seg_byte(b, mode, i, va),
            ),
        forall|pg: int|
            #[trigger] seg_page_range(b, mode, i, pg) ==> post.mapped_at(pg) && post.flags_at(pg)
                == seg_vmflags(seg_flags(b, mode, i)),
        forall|va: int|
            !(s_page <= va / (PAGE_SIZE as int) && va / (PAGE_SIZE as int) < e_page)
                ==> post.byte_at(va) == pre.byte_at(va),
        forall|p: int|
            #[trigger] post.mapped_at(p) <==> pre.mapped_at(p) || seg_page_range(b, mode, i, p),
{
    let va0 = seg_vaddr(b, mode, i);
    assert forall|va: int| #[trigger] seg_range(b, mode, i, va) implies post.byte_at(va) == Some(
        seg_byte(b, mode, i, va),
    ) by {
        lemma_addr_page_in_segment(b, mode, i, va);
        let pg = va / (PAGE_SIZE as int);
        assert(PAGE_SIZE as int * pg + va % PAGE_SIZE as int == va);
        assert(s_page * PAGE_SIZE <= va < e_page * PAGE_SIZE) by {
            assert(s_page <= pg < e_page);
        }
        let x = va - s_page * PAGE_SIZE;
        assert(post.byte_at(va) == Some(d[x]));
        assert(va0 - s_page * PAGE_SIZE >= 0) by {
            assert(PAGE_SIZE as int * s_page <= va0) by {
                assert(PAGE_SIZE as int * (va0 / (PAGE_SIZE as int)) + va0 % PAGE_SIZE as int
                    == va0);
            }
        }
        if va < va0 + seg_filesz(b, mode, i) {
            assert(va0 - s_page * PAGE_SIZE <= x < va0 - s_page * PAGE_SIZE + seg_filesz(
                b,
                mode,
                i,
            ));
            assert(d[x] == b[seg_offset(b, mode, i) + (va - va0)]);
        } else {
            assert(d[x] == 0);
        }
    }
}

/// A vector of `n` copies of one byte.
fn byte_fill(v: u8, n: usize) -> (r: Vec<u8>)
    ensures
        r@.len() == n,
        forall|k: int| 0 <= k < n ==> r@[k] == v,
{
    let mut r: Vec<u8> = Vec::new();
    let mut k: usize = 0;
    while k < n
        invariant
            0 <= k <= n,
            r@.len() == k,
            forall|j: int| 0 <= j < k ==> r@[j] == v,
        decreases n - k,
    {
        r.push(v);
        k = k + 1;
    }
    r
}

/// Assemble the page data of one segment: `total` bytes, the file bytes
/// `[off, off + filesz)` placed at `inpage`, zero elsewhere.
fn segment_pages(b: &Vec<u8>, off: usize, filesz: usize, inpage: usize, total: usize) -> (data:
    Vec<u8>)
    requires
        off + filesz <= b@.len(),
        inpage + filesz <= total,
    ensures
        data@.len() == total,
        forall|x: int|
            inpage <= x < inpage + filesz ==> data@[x] == b@[off + (x - inpage)],
        forall|x: int|
            0 <= x < total && !(inpage <= x < inpage + filesz) ==> data@[x] == 0,
{
    let n = b.len();
    let mut data = byte_fill(0, total);
    let mut k: usize = 0;
    while k < filesz
        invariant
            0 <= k <= filesz,
            off + filesz <= b@.len() <= usize::MAX,
            inpage + filesz <= total,
            data@.len() == total,
            forall|x: int| inpage <= x < inpage + k ==> data@[x] == b@[off + (x - inpage)],
            forall|x: int|
                0 <= x < total && !(inpage <= x < inpage + k) ==> data@[x] == 0,
        decreases filesz - k,
    {
        data.set(inpage + k, b[off + k]);
        k = k + 1;
    }
    data
}

} // verus!
