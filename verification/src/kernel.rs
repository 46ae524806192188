//! Kernel address-space builder.
//!
//! Maps the kernel's own regions 1:1 virtual-to-physical with permissions
//! derived from each region's class, maps all physical memory above the
//! kernel image as a read+write heap, and maps the portal page at the
//! reserved top slot. The result translates every address of every region
//! to itself: the virtual-to-physical delta of each kernel region is zero.

use vstd::prelude::*;
use vstd::arithmetic::div_mod::{lemma_div_is_ordered, lemma_div_plus_one};
use crate::vm::{AddressSpace, VmFlags, VmMode, PAGE_SIZE, PPN_LIMIT};

verus! {

/// Class of a kernel region, deciding its permissions.
#[derive(Clone, Copy, PartialEq, Eq, Structural, Debug)]
pub enum KernelRegionTitle {
    /// Code: execute + read.
    Text,
    /// Read-only data: read.
    Rodata,
    /// Mutable data: read + write.
    Data,
    /// Boot sections: read + write.
    Boot,
}

/// One named region of the kernel image, as byte addresses.
#[derive(Clone, Copy, PartialEq, Eq, Structural, Debug)]
pub struct KernelRegion {
    pub title: KernelRegionTitle,
    pub start: u64,
    pub end: u64,
}

/// Permissions of a region class: code executes, read-only data reads,
/// data and boot sections read and write. None is user-accessible.
pub open spec fn region_flags(t: KernelRegionTitle) -> VmFlags {
    match t {
        KernelRegionTitle::Text => VmFlags::kernel_text(),
        KernelRegionTitle::Rodata => VmFlags::kernel_rodata(),
        KernelRegionTitle::Data => VmFlags::kernel_data(),
        KernelRegionTitle::Boot => VmFlags::kernel_data(),
    }
}

/// Exec mirror of [`region_flags`].
pub fn flags_of_region(t: KernelRegionTitle) -> (r: VmFlags)
    ensures
        r == region_flags(t),
{
    match t {
        KernelRegionTitle::Text => VmFlags::build(true, false, true, false, false),
        KernelRegionTitle::Rodata => VmFlags::build(true, false, false, false, false),
        KernelRegionTitle::Data => VmFlags::build(true, true, false, false, false),
        KernelRegionTitle::Boot => VmFlags::build(true, true, false, false, false),
    }
}

/// First page of the address: its page number.
pub open spec fn page_floor(a: int) -> int {
    a / PAGE_SIZE as int
}

/// First page boundary at or above the address, as a page number.
pub open spec fn page_ceil(a: int) -> int {
    (a + PAGE_SIZE - 1) / PAGE_SIZE as int
}

impl KernelRegion {
    /// Whether `va` lies in the page-rounded extent of the region.
    pub open spec fn covers_addr(self, va: int) -> bool {
        page_floor(self.start as int) * PAGE_SIZE <= va < page_ceil(self.end as int) * PAGE_SIZE
    }
}

/// Build the kernel's own address space.
///
/// Every region is mapped 1:1 with its class's permissions; all physical
/// memory above the image (from the page after the last region up to
/// `regions[0].start + memory`) becomes the read+write kernel heap, also
/// 1:1; and the portal page is mapped at the reserved top slot with the
/// global+execute+write+read permission set.
///
/// A malformed or overlapping region list is boot-fatal: the preconditions
/// exclude it, and outside callers check before the call.
pub fn kernel_space(
    mode: VmMode,
    regions: &Vec<KernelRegion>,
    memory: u64,
    portal_ppn: u64,
    root_ppn: u64,
) -> (r: AddressSpace)
    requires
        regions@.len() > 0,
        forall|i: int|
            0 <= i < regions@.len() ==> (#[trigger] regions@[i]).start < regions@[i].end,
        forall|i: int, j: int|
            0 <= i < j < regions@.len() ==> page_ceil((#[trigger] regions@[i]).end as int)
                <= page_floor((#[trigger] regions@[j]).start as int),
        page_ceil(regions@.last().end as int) < page_ceil(regions@[0].start + memory),
        page_ceil(regions@[0].start + memory) <= mode.vpn_count() - 1,
        portal_ppn + 1 <= PPN_LIMIT,
    ensures
        r.wf(),
        r.mode == mode,
        r.root_ppn == root_ppn,
        forall|i: int, va: int|
            0 <= i < regions@.len() && #[trigger] regions@[i].covers_addr(va) ==> r.can_translate(
                va,
                region_flags(regions@[i].title),
            ) && r.paddr_of(va) == va,
        forall|va: int|
            page_ceil(regions@.last().end as int) * PAGE_SIZE <= va < page_ceil(
                regions@[0].start + memory,
            ) * PAGE_SIZE ==> r.can_translate(va, VmFlags::kernel_data()) && r.paddr_of(va) == va,
        r.mapped_at(mode.portal_vpn()) && r.flags_at(mode.portal_vpn()) == VmFlags::portal()
            && r.ppn_at(mode.portal_vpn()) == portal_ppn,
{
    let mut space = AddressSpace::new(mode, root_ppn, 0);
    let n = regions.len();
    let ghost rs = regions@;
    let mut k: usize = 0;
    while k < n
        invariant
            space.wf(),
            space.mode == mode,
            space.root_ppn == root_ppn,
            0 <= k <= n,
            n == rs.len(),
            rs == regions@,
            regions@.len() > 0,
            forall|i: int| 0 <= i < rs.len() ==> (#[trigger] rs[i]).start < rs[i].end,
            forall|i: int, j: int|
                0 <= i < j < rs.len() ==> page_ceil((#[trigger] rs[i]).end as int) <= page_floor(
                    (#[trigger] rs[j]).start as int,
                ),
            page_ceil(rs.last().end as int) < page_ceil(rs[0].start + memory),
            page_ceil(rs[0].start + memory) <= mode.vpn_count() - 1,
            space.areas@.len() == k,
            forall|t: int|
                0 <= t < k ==> {
                    &&& (#[trigger] space.areas@[t]).vpn == page_floor(rs[t].start as int)
                    &&& space.areas@[t].vpn + space.areas@[t].pages == page_ceil(rs[t].end as int)
                },
            forall|i: int, va: int|
                0 <= i < k && #[trigger] rs[i].covers_addr(va) ==> space.can_translate(
                    va,
                    region_flags(rs[i].title),
                ) && space.paddr_of(va) == va,
        decreases n - k,
    {
        let reg = regions[k];
        let s_page = reg.start / PAGE_SIZE;
        let e_page = (reg.end + PAGE_SIZE - 1) / PAGE_SIZE;
        proof {
            assert(reg.end + PAGE_SIZE - 1 <= u64::MAX) by {
                assert(rs[k as int].covers_addr(rs[k as int].start as int) || true);
                if (k as int) < rs.len() - 1 {
                    assert(page_ceil(rs[k as int].end as int) <= page_floor(
                        rs[rs.len() - 1].start as int,
                    ));
                }
                assert(page_ceil(rs[k as int].end as int) <= page_ceil(rs.last().end as int));
                assert(page_ceil(rs[k as int].end as int) < mode.vpn_count());
            }
        }
        proof {
            assert(page_floor(reg.start as int) < page_ceil(reg.end as int)) by {
                lemma_div_plus_one(reg.start as int, PAGE_SIZE as int);
                lemma_div_is_ordered(
                    reg.start as int + PAGE_SIZE,
                    reg.end as int + PAGE_SIZE - 1,
                    PAGE_SIZE as int,
                );
            }
        }
        let pages = e_page - s_page;
        let flags = flags_of_region(reg.title);
        let ghost pre = space;
        space.map_extern(s_page, pages, s_page, flags);
        proof {
            assert forall|i: int, va: int|
                0 <= i < k + 1 && #[trigger] rs[i].covers_addr(va) implies space.can_translate(
                va,
                region_flags(rs[i].title),
            ) && space.paddr_of(va) == va by {
                let vpn = va / PAGE_SIZE as int;
                if i < k {
                    assert(pre.can_translate(va, region_flags(rs[i].title)));
                    assert(va < page_ceil(rs[i].end as int) * PAGE_SIZE);
                    assert(vpn < page_ceil(rs[i].end as int));
                    assert(page_ceil(rs[i].end as int) <= page_floor(rs[k as int].start as int));
                    assert(!(s_page <= vpn < s_page + pages));
                    assert(pre.mapped_at(vpn));
                    assert(space.area_at(vpn) == pre.area_at(vpn));
                } else {
                    assert(s_page * PAGE_SIZE <= va < (s_page + pages) * PAGE_SIZE);
                    assert(s_page <= vpn < s_page + pages);
                    assert(space.flags_at(vpn) == region_flags(rs[i].title));
                    assert(space.ppn_at(vpn) == s_page + (vpn - s_page));
                }
            }
        }
        k = k + 1;
    }
    // kernel heap: everything above the image, read + write, still 1:1
    let last = regions[n - 1];
    let hs = (last.end + PAGE_SIZE - 1) / PAGE_SIZE;
    proof {
        assert(page_ceil(rs.last().end as int) < mode.vpn_count());
        assert(last.end + PAGE_SIZE - 1 <= u64::MAX);
    }
    let he_addr = regions[0].start + memory;
    proof {
        assert(page_ceil(rs[0].start + memory) < mode.vpn_count());
        assert(rs[0].start + memory + PAGE_SIZE - 1 <= u64::MAX) by {
            assert(page_ceil(rs[0].start + memory) <= mode.vpn_count() - 1);
        }
    }
    let he = (he_addr + PAGE_SIZE - 1) / PAGE_SIZE;
    let ghost pre_heap = space;
    proof {
        assert forall|t: int| 0 <= t < space.areas@.len() implies (#[trigger] space.areas@[t]).vpn
            + space.areas@[t].pages <= hs by {
            if t < rs.len() - 1 {
                assert(page_ceil(rs[t].end as int) <= page_floor(rs[rs.len() - 1].start as int));
                assert(page_floor(rs[rs.len() - 1].start as int) <= page_ceil(
                    rs[rs.len() - 1].end as int,
                ));
            }
        }
    }
    space.map_extern(hs, he - hs, hs, VmFlags::build(true, true, false, false, false));
    proof {
        assert forall|i: int, va: int|
            0 <= i < rs.len() && #[trigger] rs[i].covers_addr(va) implies space.can_translate(
            va,
            region_flags(rs[i].title),
        ) && space.paddr_of(va) == va by {
            let vpn = va / PAGE_SIZE as int;
            assert(pre_heap.can_translate(va, region_flags(rs[i].title)));
            assert(vpn < page_ceil(rs[i].end as int));
            assert(page_ceil(rs[i].end as int) <= hs);
            assert(space.area_at(vpn) == pre_heap.area_at(vpn));
        }
        assert forall|va: int| hs * PAGE_SIZE <= va < he * PAGE_SIZE implies space.can_translate(
            va,
            VmFlags::kernel_data(),
        ) && space.paddr_of(va) == va by {
            let vpn = va / PAGE_SIZE as int;
            assert(PAGE_SIZE as int * vpn + va % PAGE_SIZE as int == va);
            assert(hs <= vpn < he);
        }
    }
    // the portal, at the reserved top slot of every space
    let ghost pre_portal = space;
    proof {
        assert forall|t: int| 0 <= t < space.areas@.len() implies (#[trigger] space.areas@[t]).vpn
            + space.areas@[t].pages <= mode.portal_vpn() by {
            if t < rs.len() {
                assert(page_ceil(rs[t].end as int) <= hs);
            }
        }
    }
    space.map_portal(portal_ppn);
    proof {
        assert forall|i: int, va: int|
            0 <= i < rs.len() && #[trigger] rs[i].covers_addr(va) implies space.can_translate(
            va,
            region_flags(rs[i].title),
        ) && space.paddr_of(va) == va by {
            let vpn = va / PAGE_SIZE as int;
            assert(pre_portal.can_translate(va, region_flags(rs[i].title)));
            assert(vpn < hs <= mode.portal_vpn());
            assert(space.area_at(vpn) == pre_portal.area_at(vpn));
        }
        assert forall|va: int| hs * PAGE_SIZE <= va < he * PAGE_SIZE implies space.can_translate(
            va,
            VmFlags::kernel_data(),
        ) && space.paddr_of(va) == va by {
            let vpn = va / PAGE_SIZE as int;
            assert(PAGE_SIZE as int * vpn + va % PAGE_SIZE as int == va);
            assert(pre_portal.can_translate(va, VmFlags::kernel_data()));
            assert(vpn < he <= mode.portal_vpn());
            assert(space.area_at(vpn) == pre_portal.area_at(vpn));
        }
    }
    space
}

} // verus!
