use rvkernel::kernel::{kernel_space, KernelRegion, KernelRegionTitle};
use rvkernel::vm::{AddressSpace, VmFlags, VmMode, PAGE_SIZE};

fn readable() -> VmFlags {
    VmFlags::build(true, false, false, false, false)
}

fn writable() -> VmFlags {
    VmFlags::build(false, true, false, false, false)
}

#[test]
fn mode_parameters() {
    assert_eq!(VmMode::Sv39.vpn_limit(), 1 << 27);
    assert_eq!(VmMode::Sv32.vpn_limit(), 1 << 20);
    assert_eq!(VmMode::Sv39.portal_page(), (1 << 27) - 1);
    assert_eq!(VmMode::Sv32.portal_page(), (1 << 20) - 1);
    assert_eq!(VmMode::Sv39.stack_top_page(), 1 << 26);
    assert_eq!(VmMode::Sv32.stack_top_page(), 1 << 19);
    assert_eq!(VmMode::Sv39.encode_satp(7), (8u64 << 60) | 7);
    assert_eq!(VmMode::Sv32.encode_satp(7), (1u64 << 31) | 7);
    // the portal slot of the top page-table level
    assert_eq!(VmMode::Sv39.top_index(VmMode::Sv39.portal_page()), 511);
    assert_eq!(VmMode::Sv32.top_index(VmMode::Sv32.portal_page()), 1023);
}

#[test]
fn translate_identity_and_permissions() {
    let mut s = AddressSpace::new(VmMode::Sv39, 3, 0x1000);
    // map four pages at page 16 onto physical page 16, read only
    s.map_extern(16, 4, 16, VmFlags::build(true, false, false, false, false));
    let va = 16 * PAGE_SIZE + 0x123;
    assert_eq!(s.translate(va, readable()), Some(va));
    // write permission is absent
    assert_eq!(s.translate(va, writable()), None);
    // an unmapped page does not translate
    assert_eq!(s.translate(40 * PAGE_SIZE, readable()), None);
}

#[test]
fn owned_memory_read_write_round_trip() {
    let mut s = AddressSpace::new(VmMode::Sv39, 3, 0x1000);
    let data = vec![0u8; PAGE_SIZE as usize];
    s.map(8, 1, data, VmFlags::build(true, true, false, true, false));
    let va = 8 * PAGE_SIZE + 100;
    assert!(s.write_bytes(va, &vec![1, 2, 3], writable()));
    let back = s.read_bytes(va, 3, readable()).unwrap();
    assert_eq!(back, vec![1, 2, 3]);
    // the rest of the page stayed zero
    assert_eq!(s.read_bytes(va + 3, 2, readable()).unwrap(), vec![0, 0]);
    // a write through a missing permission changes nothing
    assert!(!s.write_bytes(40 * PAGE_SIZE, &vec![9], writable()));
}

#[test]
fn kernel_regions_translate_with_zero_delta() {
    // three disjoint kernel regions, page aligned
    let regions = vec![
        KernelRegion { title: KernelRegionTitle::Text, start: 0x8020_0000, end: 0x8020_3000 },
        KernelRegion { title: KernelRegionTitle::Rodata, start: 0x8020_3000, end: 0x8020_5000 },
        KernelRegion { title: KernelRegionTitle::Data, start: 0x8020_5000, end: 0x8020_8000 },
    ];
    let memory = 24 << 20; // 24 MiB of physical memory
    let ks = kernel_space(VmMode::Sv39, &regions, memory, 0x9999, 42);
    assert_eq!(ks.root_ppn, 42);

    // every address in region i translates to itself (delta 0)
    let exec_read = VmFlags::build(true, false, true, false, false);
    assert_eq!(ks.translate(0x8020_0000, exec_read), Some(0x8020_0000));
    assert_eq!(ks.translate(0x8020_2FFF, exec_read), Some(0x8020_2FFF));
    assert_eq!(ks.translate(0x8020_3800, readable()), Some(0x8020_3800));
    assert_eq!(ks.translate(0x8020_6000, writable()), Some(0x8020_6000));
    // code is not writable, read-only data is not executable
    assert_eq!(ks.translate(0x8020_0000, writable()), None);
    assert_eq!(
        ks.translate(0x8020_3800, VmFlags::build(false, false, true, false, false)),
        None
    );
    // the heap above the image is read+write, still identity
    assert_eq!(ks.translate(0x8030_0000, writable()), Some(0x8030_0000));
    // the portal page sits at the reserved top slot
    let portal_va = VmMode::Sv39.portal_page() * PAGE_SIZE;
    let portal_flags = VmFlags::build(true, true, true, false, true);
    let pa = ks.translate(portal_va, portal_flags).unwrap();
    assert_eq!(pa, 0x9999 * PAGE_SIZE);
}

#[test]
fn portal_slot_is_identical_across_spaces() {
    let mut p1 = AddressSpace::new(VmMode::Sv32, 5, 0);
    let mut p2 = AddressSpace::new(VmMode::Sv32, 6, 0);
    p1.map_portal(0x777);
    p2.map_portal(0x777);
    let portal_va = VmMode::Sv32.portal_page() * PAGE_SIZE;
    let f = VmFlags::build(true, true, true, false, true);
    assert_eq!(p1.translate(portal_va, f), p2.translate(portal_va, f));
    assert_eq!(p1.translate(portal_va, f), Some(0x777 * PAGE_SIZE));
}
