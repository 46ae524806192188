//! Execution core of a minimal RISC-V kernel, modelled over plain values.
//!
//! The crate verifies the decision logic of the kernel: the machine-mode
//! SBI monitor, page-table construction and translation, the ELF process
//! loader, and the cooperative scheduler with its syscall dispatcher.
//! Hardware access (MMIO, CSRs, the trampoline) stays outside; the library
//! takes device and trap state as values and states exactly how it changes.

pub mod apps;
pub mod cases;
pub mod console;
pub mod elf;
pub mod process;
pub mod kernel;
pub mod sbi;
pub mod sched;
pub mod vm;
