//! Build-case planning.
//!
//! The build tool reads, per chapter, an optional base load address, an
//! optional per-case stride and a list of case names, and assigns each case
//! its load address: `base + i * step`. A missing base means every case
//! links in place (address 0); a stride counts only when a base is set.
//! Reading the configuration and invoking the builds is outside work; the
//! address assignment is verified here.

use vstd::prelude::*;

verus! {

/// One chapter's build configuration, as read from the build manifest.
pub struct Cases {
    pub base: Option<u64>,
    pub step: Option<u64>,
    pub cases: Option<Vec<String>>,
}

/// The planned builds: the effective base and stride, and one load address
/// per case (0 = link in place).
pub struct CasesInfo {
    pub base: u64,
    pub step: u64,
    pub bins: Vec<u64>,
}

impl Cases {
    /// The effective base: the configured one, or 0.
    pub open spec fn effective_base(self) -> int {
        if self.base is Some {
            self.base.unwrap() as int
        } else {
            0
        }
    }

    /// The effective stride: the configured one, counted only when a base
    /// is configured too.
    pub open spec fn effective_step(self) -> int {
        if self.base is Some && self.step is Some {
            self.step.unwrap() as int
        } else {
            0
        }
    }

    /// Number of cases to build.
    pub open spec fn case_count(self) -> int {
        if self.cases is Some {
            self.cases.unwrap()@.len() as int
        } else {
            0
        }
    }

    /// Plan the builds: each case `i` gets load address `base + i * step`.
    pub fn build(&self) -> (r: CasesInfo)
        requires
            self.case_count() == 0 || self.effective_base() + (self.case_count() - 1)
                * self.effective_step() <= u64::MAX,
        ensures
            self.cases is Some ==> r.base == self.effective_base() && r.step
                == self.effective_step(),
            self.cases is None ==> r.base == 0 && r.step == 0,
            r.bins@.len() == self.case_count(),
            forall|i: int|
                0 <= i < r.bins@.len() ==> #[trigger] r.bins@[i] == self.effective_base() + i
                    * self.effective_step(),
    {
        let names = match &self.cases {
            None => {
                return CasesInfo { base: 0, step: 0, bins: Vec::new() };
            },
            Some(names) => names,
        };
        let base = match self.base {
            Some(b) => b,
            None => 0,
        };
        let step = match (self.base, self.step) {
            (Some(_), Some(s)) => s,
            _ => 0,
        };
        let n = names.len();
        let mut bins: Vec<u64> = Vec::new();
        let mut i: usize = 0;
        while i < n
            invariant
                0 <= i <= n,
                n == self.case_count(),
                base == self.effective_base(),
                step == self.effective_step(),
                n == 0 || base + (n - 1) * step <= u64::MAX,
                bins@.len() == i,
                forall|j: int|
                    0 <= j < i ==> #[trigger] bins@[j] == base + j * step,
            decreases n - i,
        {
            proof {
                vstd::arithmetic::mul::lemma_mul_inequality(i as int, n - 1, step as int);
            }
            bins.push(base + (i as u64) * step);
            i = i + 1;
        }
        CasesInfo { base, step, bins }
    }
}

} // verus!
