//! A library modelling the core of a RISC-V type-1 hypervisor built on the
//! hardware H extension: Sv39 page tables for both translation stages, the
//! memory-set abstraction that owns mapped regions, the vmexit dispatcher,
//! the SBI call proxy, and the PLIC claim/complete emulation.
//!
//! Hardware accesses (CSR reads and writes, firmware calls, raw memory) are
//! kept outside: the library computes decisions and effects from plain
//! values, and an embedder applies them to the machine.

pub mod addr;
pub mod error;
pub mod page_table;
pub mod frame_allocator;
pub mod memory_set;
pub mod mm;
pub mod regs;
pub mod device_id;
pub mod detect;
pub mod decode;
pub mod plic;
pub mod hypervisor;
pub mod sbi;
pub mod walk;
pub mod vmexit;
pub mod laws;
pub mod board;
pub mod constants;
pub mod pte;
