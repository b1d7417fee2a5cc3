pub mod dram;
pub mod interrupt;
pub mod csr;
pub mod instruction;
pub mod clint;
pub mod uart;
pub mod plic;
pub mod virtio;
pub mod bus;
pub mod cpu;
pub mod emu;
pub mod elf;
pub mod naming;
pub mod verdict;
