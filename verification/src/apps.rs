//! Embedded-application table.
//!
//! The boot image carries a table describing the statically linked user
//! binaries: a base load address, a per-slot stride, and the byte offsets of
//! each binary (one more offset than binaries, the last one marking the
//! end). Iterating the table yields, per application, where its bytes sit
//! and where they are to be placed: at `base + i * step` when a base is
//! configured (the binary is then relocated into a fixed-size slot, zero
//! padded), or in place when the base is zero.

use vstd::prelude::*;

verus! {

/// Size of one relocation slot: a relocated binary is copied to its slot
/// base and the rest of the slot is zero-filled.
pub const APP_SLOT_SIZE: u64 = 0x20_0000;

/// Application metadata: base load address, per-slot stride, and the table
/// of byte offsets (count + 1 entries, non-decreasing).
pub struct AppMeta {
    pub base: u64,
    pub step: u64,
    pub offsets: Vec<u64>,
}

impl AppMeta {
    /// Well-formed: the offsets table has an end marker and is
    /// non-decreasing, and every slot base fits the address width.
    pub open spec fn wf(self) -> bool {
        &&& self.offsets@.len() >= 1
        &&& forall|i: int|
            0 <= i < self.offsets@.len() - 1 ==> #[trigger] self.offsets@[i] <= self.offsets@[i
                + 1]
        &&& self.base + (self.offsets@.len() - 1) * self.step <= u64::MAX
    }

    /// Number of applications in the table.
    pub open spec fn count(self) -> int {
        self.offsets@.len() - 1
    }

    /// Iterate over the linked applications.
    pub fn iter(&self) -> (r: AppIterator<'_>)
        ensures
            r.meta == self,
            r.i == 0,
    {
        AppIterator { meta: self, i: 0 }
    }
}

/// Where one application's bytes sit and where they are to be placed.
pub struct AppSlot {
    /// First byte of the binary inside the image.
    pub src: u64,
    /// Size of the binary in bytes.
    pub size: u64,
    /// Address the binary runs from: its relocation slot when the table has
    /// a base, its source position otherwise.
    pub dest: u64,
}

/// Iterator over the application table.
pub struct AppIterator<'a> {
    pub meta: &'a AppMeta,
    pub i: usize,
}

impl<'a> AppIterator<'a> {
    /// The next application's placement, `None` past the end.
    ///
    /// Application `i` occupies `[offsets[i], offsets[i + 1])` in the image;
    /// it runs from `base + i * step` when that is non-zero (the copy into
    /// the slot and its zero fill are the caller's to perform), in place
    /// otherwise.
    pub fn next(&mut self) -> (r: Option<AppSlot>)
        requires
            old(self).meta.wf(),
            old(self).i <= old(self).meta.count(),
        ensures
            final(self).meta == old(self).meta,
            old(self).i == old(self).meta.count() ==> r is None && final(self).i == old(self).i,
            old(self).i < old(self).meta.count() ==> {
                let i = old(self).i as int;
                let m = old(self).meta;
                let reloc = m.base + i * m.step != 0;
                &&& final(self).i == old(self).i + 1
                &&& r matches Some(s)
                &&& (r matches Some(s) ==> {
                    &&& s.src == m.offsets@[i]
                    &&& s.size == m.offsets@[i + 1] - m.offsets@[i]
                    &&& s.dest == if reloc {
                        m.base + i * m.step
                    } else {
                        m.offsets@[i] as int
                    }
                })
            },
    {
        let n = self.meta.offsets.len();
        if self.i >= n - 1 {
            return None;
        }
        let i = self.i;
        self.i = i + 1;
        let pos = self.meta.offsets[i];
        let size = self.meta.offsets[i + 1] - pos;
        proof {
            vstd::arithmetic::mul::lemma_mul_inequality(
                i as int,
                self.meta.offsets@.len() - 1,
                self.meta.step as int,
            );
        }
        let slot = self.meta.base + (i as u64) * self.meta.step;
        if slot != 0 {
            Some(AppSlot { src: pos, size, dest: slot })
        } else {
            Some(AppSlot { src: pos, size, dest: pos })
        }
    }
}

} // verus!
