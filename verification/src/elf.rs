//! ELF executable format: the fields the loader consumes.
//!
//! The loader reads the file type, target instruction set, entry point and
//! the loadable program segments. Every field is a little-endian integer at
//! a fixed offset, stated here as a spec function over the file bytes, so
//! the reader functions have exact contracts.

use vstd::prelude::*;
use crate::vm::VmMode;

verus! {

/// File type of an executable.
pub const ET_EXEC: u16 = 2;
/// Machine id of the target instruction set.
pub const EM_RISCV: u16 = 243;
/// Program-segment type of a loadable segment.
pub const PT_LOAD: u32 = 1;
/// Segment permission bit: executable.
pub const PF_X: u32 = 1;
/// Segment permission bit: writable.
pub const PF_W: u32 = 2;
/// Segment permission bit: readable.
pub const PF_R: u32 = 4;

/// The little-endian 16-bit integer at `off`.
pub open spec fn le_u16(b: Seq<u8>, off: int) -> int
    recommends
        0 <= off,
        off + 2 <= b.len(),
{
    b[off] + 0x100 * b[off + 1]
}

/// The little-endian 32-bit integer at `off`.
pub open spec fn le_u32(b: Seq<u8>, off: int) -> int
    recommends
        0 <= off,
        off + 4 <= b.len(),
{
    le_u16(b, off) + 0x1_0000 * le_u16(b, off + 2)
}

/// The little-endian 64-bit integer at `off`.
pub open spec fn le_u64(b: Seq<u8>, off: int) -> int
    recommends
        0 <= off,
        off + 8 <= b.len(),
{
    le_u32(b, off) + 0x1_0000_0000 * le_u32(b, off + 4)
}

/// Read the little-endian 16-bit integer at `off`.
pub fn read_u16(b: &Vec<u8>, off: usize) -> (r: u16)
    requires
        off + 2 <= b@.len(),
    ensures
        r == le_u16(b@, off as int),
{
    let n = b.len();
    b[off] as u16 + 0x100 * (b[off + 1] as u16)
}

/// Read the little-endian 32-bit integer at `off`.
pub fn read_u32(b: &Vec<u8>, off: usize) -> (r: u32)
    requires
        off + 4 <= b@.len(),
    ensures
        r == le_u32(b@, off as int),
{
    let n = b.len();
    read_u16(b, off) as u32 + 0x1_0000 * (read_u16(b, off + 2) as u32)
}

/// Read the little-endian 64-bit integer at `off`.
pub fn read_u64(b: &Vec<u8>, off: usize) -> (r: u64)
    requires
        off + 8 <= b@.len(),
    ensures
        r == le_u64(b@, off as int),
{
    let n = b.len();
    read_u32(b, off) as u64 + 0x1_0000_0000 * (read_u32(b, off + 4) as u64)
}

/// The file class byte matching a translation mode: 2 for the 64-bit class,
/// 1 for the 32-bit class.
pub open spec fn elf_class(mode: VmMode) -> int {
    match mode {
        VmMode::Sv39 => 2,
        VmMode::Sv32 => 1,
    }
}

/// Size of the file header for the mode's class.
pub open spec fn eh_size(mode: VmMode) -> int {
    match mode {
        VmMode::Sv39 => 64,
        VmMode::Sv32 => 52,
    }
}

/// Size of one program header for the mode's class.
pub open spec fn ph_size(mode: VmMode) -> int {
    match mode {
        VmMode::Sv39 => 56,
        VmMode::Sv32 => 32,
    }
}

/// Whether the bytes begin with a header the loader accepts: the magic
/// number, the class matching the translation mode, an executable file for
/// the target instruction set, and the standard program-header entry size.
pub open spec fn header_ok(b: Seq<u8>, mode: VmMode) -> bool {
    &&& b.len() >= eh_size(mode)
    &&& b[0] == 0x7f
    &&& b[1] == 0x45
    &&& b[2] == 0x4c
    &&& b[3] == 0x46
    &&& b[4] == elf_class(mode)
    &&& le_u16(b, 16) == ET_EXEC
    &&& le_u16(b, 18) == EM_RISCV
    &&& le_u16(b, if mode is Sv39 { 54 } else { 42 }) == ph_size(mode)
}

/// The entry point named by the header.
pub open spec fn entry_of(b: Seq<u8>, mode: VmMode) -> int {
    match mode {
        VmMode::Sv39 => le_u64(b, 24),
        VmMode::Sv32 => le_u32(b, 24),
    }
}

/// The program-header table offset named by the header.
pub open spec fn phoff_of(b: Seq<u8>, mode: VmMode) -> int {
    match mode {
        VmMode::Sv39 => le_u64(b, 32),
        VmMode::Sv32 => le_u32(b, 28),
    }
}

/// The number of program headers named by the header.
pub open spec fn phnum_of(b: Seq<u8>, mode: VmMode) -> int {
    match mode {
        VmMode::Sv39 => le_u16(b, 56),
        VmMode::Sv32 => le_u16(b, 44),
    }
}

/// The validated file header fields the loader uses.
pub struct ElfHeader {
    /// Entry point of the executable.
    pub entry: u64,
    /// Offset of the program-header table.
    pub phoff: u64,
    /// Number of program headers.
    pub phnum: u16,
}

/// Parse and validate the file header: `Some` exactly when the bytes hold
/// an executable for the target instruction set in the mode's class.
pub fn parse_header(b: &Vec<u8>, mode: VmMode) -> (r: Option<ElfHeader>)
    ensures
        r is Some <==> header_ok(b@, mode),
        r matches Some(h) ==> {
            &&& h.entry == entry_of(b@, mode)
            &&& h.phoff == phoff_of(b@, mode)
            &&& h.phnum == phnum_of(b@, mode)
        },
{
    let min = match mode {
        VmMode::Sv39 => 64,
        VmMode::Sv32 => 52,
    };
    if b.len() < min {
        return None;
    }
    if b[0] != 0x7f || b[1] != 0x45 || b[2] != 0x4c || b[3] != 0x46 {
        return None;
    }
    let class: u8 = match mode {
        VmMode::Sv39 => 2,
        VmMode::Sv32 => 1,
    };
    if b[4] != class {
        return None;
    }
    if read_u16(b, 16) != ET_EXEC || read_u16(b, 18) != EM_RISCV {
        return None;
    }
    match mode {
        VmMode::Sv39 => {
            if read_u16(b, 54) != 56 {
                return None;
            }
            Some(ElfHeader { entry: read_u64(b, 24), phoff: read_u64(b, 32), phnum: read_u16(b, 56) })
        },
        VmMode::Sv32 => {
            if read_u16(b, 42) != 32 {
                return None;
            }
            Some(
                ElfHeader {
                    entry: read_u32(b, 24) as u64,
                    phoff: read_u32(b, 28) as u64,
                    phnum: read_u16(b, 44),
                },
            )
        },
    }
}

/// Position of program header `i` in the file.
pub open spec fn ph_pos(b: Seq<u8>, mode: VmMode, i: int) -> int {
    phoff_of(b, mode) + i * ph_size(mode)
}

/// Whether program header `i` lies within the file.
pub open spec fn ph_in_bounds(b: Seq<u8>, mode: VmMode, i: int) -> bool {
    ph_pos(b, mode, i) + ph_size(mode) <= b.len()
}

/// Segment type of program header `i`.
pub open spec fn seg_type(b: Seq<u8>, mode: VmMode, i: int) -> int {
    le_u32(b, ph_pos(b, mode, i))
}

/// File offset of segment `i`.
pub open spec fn seg_offset(b: Seq<u8>, mode: VmMode, i: int) -> int {
    match mode {
        VmMode::Sv39 => le_u64(b, ph_pos(b, mode, i) + 8),
        VmMode::Sv32 => le_u32(b, ph_pos(b, mode, i) + 4),
    }
}

/// Virtual address of segment `i`.
pub open spec fn seg_vaddr(b: Seq<u8>, mode: VmMode, i: int) -> int {
    match mode {
        VmMode::Sv39 => le_u64(b, ph_pos(b, mode, i) + 16),
        VmMode::Sv32 => le_u32(b, ph_pos(b, mode, i) + 8),
    }
}

/// File size of segment `i`.
pub open spec fn seg_filesz(b: Seq<u8>, mode: VmMode, i: int) -> int {
    match mode {
        VmMode::Sv39 => le_u64(b, ph_pos(b, mode, i) + 32),
        VmMode::Sv32 => le_u32(b, ph_pos(b, mode, i) + 16),
    }
}

/// Memory size of segment `i`.
pub open spec fn seg_memsz(b: Seq<u8>, mode: VmMode, i: int) -> int {
    match mode {
        VmMode::Sv39 => le_u64(b, ph_pos(b, mode, i) + 40),
        VmMode::Sv32 => le_u32(b, ph_pos(b, mode, i) + 20),
    }
}

/// Permission flags of segment `i`.
pub open spec fn seg_flags(b: Seq<u8>, mode: VmMode, i: int) -> int {
    match mode {
        VmMode::Sv39 => le_u32(b, ph_pos(b, mode, i) + 4),
        VmMode::Sv32 => le_u32(b, ph_pos(b, mode, i) + 24),
    }
}

/// One program segment, as read from its program header.
pub struct Segment {
    pub ptype: u32,
    pub offset: u64,
    pub vaddr: u64,
    pub filesz: u64,
    pub memsz: u64,
    pub flags: u32,
}

/// Read program header `i`: `Some` exactly when it lies within the file.
pub fn read_segment(b: &Vec<u8>, mode: VmMode, i: u16) -> (r: Option<Segment>)
    requires
        header_ok(b@, mode),
        i < phnum_of(b@, mode),
    ensures
        r is Some <==> ph_in_bounds(b@, mode, i as int),
        r matches Some(s) ==> {
            &&& s.ptype == seg_type(b@, mode, i as int)
            &&& s.offset == seg_offset(b@, mode, i as int)
            &&& s.vaddr == seg_vaddr(b@, mode, i as int)
            &&& s.filesz == seg_filesz(b@, mode, i as int)
            &&& s.memsz == seg_memsz(b@, mode, i as int)
            &&& s.flags == seg_flags(b@, mode, i as int)
        },
{
    let len = b.len() as u64;
    let h = parse_header(b, mode).unwrap();
    let entsize: u64 = match mode {
        VmMode::Sv39 => 56,
        VmMode::Sv32 => 32,
    };
    if h.phoff > len {
        return None;
    }
    let rel = (i as u64) * entsize;
    if rel > len - h.phoff {
        return None;
    }
    if entsize > len - h.phoff - rel {
        return None;
    }
    let pos = (h.phoff + rel) as usize;
    match mode {
        VmMode::Sv39 => Some(
            Segment {
                ptype: read_u32(b, pos),
                offset: read_u64(b, pos + 8),
                vaddr: read_u64(b, pos + 16),
                filesz: read_u64(b, pos + 32),
                memsz: read_u64(b, pos + 40),
                flags: read_u32(b, pos + 4),
            },
        ),
        VmMode::Sv32 => Some(
            Segment {
                ptype: read_u32(b, pos),
                offset: read_u32(b, pos + 4) as u64,
                vaddr: read_u32(b, pos + 8) as u64,
                filesz: read_u32(b, pos + 16) as u64,
                memsz: read_u32(b, pos + 20) as u64,
                flags: read_u32(b, pos + 24) as u64 as u32,
            },
        ),
    }
}

} // verus!
