use rvkernel::process::Process;
use rvkernel::vm::{VmFlags, VmMode, PAGE_SIZE};

fn put_u16(v: &mut [u8], off: usize, x: u16) {
    v[off..off + 2].copy_from_slice(&x.to_le_bytes());
}

fn put_u32(v: &mut [u8], off: usize, x: u32) {
    v[off..off + 4].copy_from_slice(&x.to_le_bytes());
}

fn put_u64(v: &mut [u8], off: usize, x: u64) {
    v[off..off + 8].copy_from_slice(&x.to_le_bytes());
}

/// A minimal 64-bit executable with one loadable segment whose file bytes
/// start right after the program header (offset 120).
fn elf64_one_segment(entry: u64, vaddr: u64, content: &[u8], memsz: u64, flags: u32) -> Vec<u8> {
    let mut v = vec![0u8; 120];
    v[0] = 0x7f;
    v[1] = b'E';
    v[2] = b'L';
    v[3] = b'F';
    v[4] = 2; // 64-bit class
    v[5] = 1; // little endian
    put_u16(&mut v, 16, 2); // EXEC
    put_u16(&mut v, 18, 243); // RISC-V
    put_u64(&mut v, 24, entry);
    put_u64(&mut v, 32, 64); // program headers right after the file header
    put_u16(&mut v, 54, 56); // program header size
    put_u16(&mut v, 56, 1); // one program header
    put_u32(&mut v, 64, 1); // LOAD
    put_u32(&mut v, 68, flags);
    put_u64(&mut v, 72, 120); // file offset
    put_u64(&mut v, 80, vaddr);
    put_u64(&mut v, 88, vaddr);
    put_u64(&mut v, 96, content.len() as u64);
    put_u64(&mut v, 104, memsz);
    put_u64(&mut v, 112, PAGE_SIZE);
    v.extend_from_slice(content);
    v
}

#[test]
fn loads_single_segment_with_entry_and_stack_top() {
    // in-page offsets must agree: the file bytes sit at 120 in the file
    let vaddr = 0x10000 + 120;
    let entry = vaddr;
    let content = b"\x13\x05\x00\x00ABCDEFG"; // arbitrary code bytes
    let elf = elf64_one_segment(entry, vaddr, content, content.len() as u64 + 8, 5);
    let p = Process::new(&elf, VmMode::Sv39, 7).expect("a valid executable loads");

    // saved program counter = entry; stack pointer = top of the stack range
    assert_eq!(p.context.pc, entry);
    assert_eq!(p.context.sp, VmMode::Sv39.stack_top_page() * PAGE_SIZE);
    assert_eq!(p.context.satp, (8u64 << 60) | 7);

    // the segment bytes sit at their virtual addresses
    let readable = VmFlags::build(true, false, false, false, false);
    let loaded = p.address_space.read_bytes(vaddr, content.len(), readable).unwrap();
    assert_eq!(&loaded, content);
    // the tail of the segment beyond the copied length is zero-filled
    let tail = p.address_space.read_bytes(vaddr + content.len() as u64, 8, readable).unwrap();
    assert_eq!(tail, vec![0u8; 8]);

    // the stack is mapped, zeroed, user read+write
    let writable = VmFlags::build(false, true, false, true, false);
    let stack_lo = (VmMode::Sv39.stack_top_page() - 2) * PAGE_SIZE;
    let stack = p.address_space.read_bytes(stack_lo, 16, writable).unwrap();
    assert_eq!(stack, vec![0u8; 16]);

    // the segment was mapped without the write permission (read+execute)
    assert!(p.address_space.translate(vaddr, VmFlags::build(false, false, true, true, false)).is_some());
    assert!(p.address_space.translate(vaddr, VmFlags::build(false, true, false, false, false)).is_none());
}

#[test]
fn rejects_non_executables_and_wrong_machines() {
    let vaddr = 0x10000 + 120;
    let good = elf64_one_segment(vaddr, vaddr, b"x", 1, 5);
    assert!(Process::new(&good, VmMode::Sv39, 1).is_some());

    // wrong magic
    let mut bad = good.clone();
    bad[0] = 0;
    assert!(Process::new(&bad, VmMode::Sv39, 1).is_none());

    // a 64-bit image does not load under the 32-bit mode
    assert!(Process::new(&good, VmMode::Sv32, 1).is_none());

    // wrong file type (relocatable, not executable)
    let mut rel = good.clone();
    put_u16(&mut rel, 16, 1);
    assert!(Process::new(&rel, VmMode::Sv39, 1).is_none());

    // wrong machine
    let mut arm = good.clone();
    put_u16(&mut arm, 18, 40);
    assert!(Process::new(&arm, VmMode::Sv39, 1).is_none());

    // too short to hold a header
    assert!(Process::new(&vec![0x7f, b'E', b'L', b'F'], VmMode::Sv39, 1).is_none());
}

#[test]
fn rejects_mismatched_page_offsets() {
    // vaddr % PAGE_SIZE is 0 but the file bytes sit at 120: the
    // binary-format invariant fails
    let vaddr = 0x10000;
    let elf = elf64_one_segment(vaddr, vaddr, b"abc", 3, 5);
    assert!(Process::new(&elf, VmMode::Sv39, 1).is_none());
}

#[test]
fn empty_segment_is_skipped() {
    // a loadable segment with memory size 0 maps nothing but the image
    // still loads
    let vaddr = 0x10000 + 120;
    let elf = elf64_one_segment(vaddr, vaddr, b"", 0, 5);
    let p = Process::new(&elf, VmMode::Sv39, 1).expect("loads with nothing mapped");
    let readable = VmFlags::build(true, false, false, false, false);
    assert!(p.address_space.translate(vaddr, readable).is_none());
}

/// A minimal 32-bit executable with one loadable segment whose file bytes
/// start right after the program header (offset 84).
fn elf32_one_segment(entry: u32, vaddr: u32, content: &[u8], memsz: u32, flags: u32) -> Vec<u8> {
    let mut v = vec![0u8; 84];
    v[0] = 0x7f;
    v[1] = b'E';
    v[2] = b'L';
    v[3] = b'F';
    v[4] = 1; // 32-bit class
    v[5] = 1;
    put_u16(&mut v, 16, 2);
    put_u16(&mut v, 18, 243);
    put_u32(&mut v, 24, entry);
    put_u32(&mut v, 28, 52); // program headers right after the file header
    put_u16(&mut v, 42, 32); // program header size
    put_u16(&mut v, 44, 1);
    put_u32(&mut v, 52, 1); // LOAD
    put_u32(&mut v, 56, 84); // file offset
    put_u32(&mut v, 60, vaddr);
    put_u32(&mut v, 64, vaddr);
    put_u32(&mut v, 68, content.len() as u32);
    put_u32(&mut v, 72, memsz);
    put_u32(&mut v, 76, flags);
    put_u32(&mut v, 80, PAGE_SIZE as u32);
    v.extend_from_slice(content);
    v
}

#[test]
fn loads_32_bit_image_under_its_own_mode() {
    let vaddr: u32 = 0x20000 + 84;
    let content = b"rv32";
    let elf = elf32_one_segment(vaddr, vaddr, content, 4, 5);
    let p = Process::new(&elf, VmMode::Sv32, 9).expect("a 32-bit executable loads under Sv32");
    assert_eq!(p.context.pc, vaddr as u64);
    assert_eq!(p.context.sp, VmMode::Sv32.stack_top_page() * PAGE_SIZE);
    assert_eq!(p.context.sp, 1u64 << 31);
    assert_eq!(p.context.satp, (1u64 << 31) | 9);
    let readable = VmFlags::build(true, false, false, false, false);
    let loaded = p.address_space.read_bytes(vaddr as u64, 4, readable).unwrap();
    assert_eq!(&loaded, content);
    // and it does not load under the 64-bit mode
    assert!(Process::new(&elf, VmMode::Sv39, 9).is_none());
}
