pub mod tlb;
pub mod trap;
pub mod mmu;
pub mod execute;
pub mod run;

use crate::clint::{Clint, ClintState};
use crate::csr::{Csr, CsrSnapshot};
use crate::dram::DRAM_SIZE;
use crate::instruction::{BasicBlock, BlockState};
use crate::interrupt::{Interrupt, InterruptList};
use std::collections::HashMap;
use tlb::{entries_map, Tlb, TlbEntry};
use vstd::prelude::*;

verus! {

broadcast use vstd::std_specs::hash::group_hash_axioms;

/// Marks "no register" in the register highlight fields.
pub const REG_NUM: usize = 32;
pub const M_MODE: u64 = 0b11;
pub const S_MODE: u64 = 0b01;
pub const U_MODE: u64 = 0b00;

/// Where the CLINT is mapped, and its size.
pub const CLINT_BASE: u64 = 0x200_0000;
pub const CLINT_SIZE: u64 = 0x10000;

/// Why the hart stopped for good.
#[derive(Clone, Copy, Debug, PartialEq, Eq, Structural)]
pub enum Halt {
    /// The program counter reached zero after an instruction: the program finished.
    Finished,
    /// A trap was taken to a vector whose mode field is neither direct nor vectored.
    BadTrapVector,
    /// An environment call was made from a privilege mode that does not exist.
    BadMode(u64),
    /// An arithmetic overflow.
    Overflow,
    /// An access beyond the end of main memory or of the PLIC register file, at this address.
    OutOfBounds(u64),
    /// A virtio request whose buffers or sectors lie outside memory or the disk image.
    DiskAccess,
}

/// The kind of access an address is translated for.
#[derive(Clone, Copy, PartialEq, Eq, Structural)]
pub enum AccessMode {
    Fetch,
    Load,
    Store,
}

/// Bit `bit` of `integer`.
pub open spec fn bit_spec(integer: u64, bit: u64) -> u64 {
    (integer >> bit) & 0x1
}

/// Bit `bit` of `integer`.
pub fn bit(integer: u64, pos: u64) -> (b: u64)
    requires
        pos < 64,
    ensures
        b == bit_spec(integer, pos),
        b <= 1,
{
    assert((integer >> pos) & 0x1 <= 1) by (bit_vector);
    (integer >> pos) & 0x1
}

/// The saved hart.
pub struct CpuSnapshot {
    pub regs: [u64; 32],
    pub pc: u64,
    pub csr: CsrSnapshot,
    pub mode: u64,
    pub cycle: u64,
    pub clint: Clint,
    pub interrupt_list: Vec<Interrupt>,
    pub address_translation_cache: Vec<TlbEntry>,
}

/// A RISC-V hart: registers, CSRs, privilege mode, the CLINT, pending interrupts, the
/// translation cache and the cache of decoded basic blocks. `dest`, `src1` and `src2` name the
/// registers the last instruction wrote and read, for register dumps.
pub struct Cpu {
    pub regs: [u64; 32],
    pub pc: u64,
    pub csr: Csr,
    pub dest: usize,
    pub src1: usize,
    pub src2: usize,
    pub mode: u64,
    pub dump_count: u64,
    pub dump_interval: u64,
    pub cycle: u64,
    pub clint: Clint,
    pub interrupt_list: InterruptList,
    pub address_translation_cache: Tlb,
    pub block_cache: HashMap<u64, BasicBlock>,
    pub halt: Option<Halt>,
}

/// The state of a hart.
#[verifier::ext_equal]
pub struct CpuState {
    pub regs: Seq<u64>,
    pub pc: u64,
    pub csr: Seq<u64>,
    pub dest: usize,
    pub src1: usize,
    pub src2: usize,
    pub mode: u64,
    pub dump_count: u64,
    pub dump_interval: u64,
    pub cycle: u64,
    pub clint: ClintState,
    pub interrupts: Set<Interrupt>,
    pub tlb: Map<(u64, u64, u64), u64>,
    pub blocks: Map<u64, BlockState>,
    pub halt: Option<Halt>,
}

impl View for Cpu {
    type V = CpuState;

    open spec fn view(&self) -> CpuState {
        CpuState {
            regs: self.regs@,
            pc: self.pc,
            csr: self.csr@,
            dest: self.dest,
            src1: self.src1,
            src2: self.src2,
            mode: self.mode,
            dump_count: self.dump_count,
            dump_interval: self.dump_interval,
            cycle: self.cycle,
            clint: self.clint@,
            interrupts: self.interrupt_list@,
            tlb: self.address_translation_cache@,
            blocks: self.block_cache@.map_values(|b: BasicBlock| b@),
            halt: self.halt,
        }
    }
}

impl CpuState {
    /// A hart in machine mode at `base_addr` with the stack pointer at the top of memory, all
    /// CSRs zero, the CLINT at its usual place, nothing pending or cached, and register dumps
    /// every `dump_count` instructions.
    pub open spec fn initial(base_addr: u64, dump_count: u64) -> CpuState {
        CpuState {
            regs: Seq::new(32, |i: int| if i == 2 { DRAM_SIZE } else { 0u64 }),
            pc: base_addr,
            csr: Seq::new(4096, |i: int| 0u64),
            dest: REG_NUM,
            src1: REG_NUM,
            src2: REG_NUM,
            mode: M_MODE,
            dump_count,
            dump_interval: dump_count,
            cycle: 0,
            clint: ClintState {
                start_addr: CLINT_BASE,
                size: CLINT_SIZE,
                registers: Seq::new((CLINT_SIZE / 8) as nat, |i: int| 0u64),
            },
            interrupts: Set::empty(),
            tlb: Map::empty(),
            blocks: Map::empty(),
            halt: None,
        }
    }

    /// 32 registers, 4096 CSRs and a well-formed CLINT.
    pub open spec fn wf(self) -> bool {
        &&& self.regs.len() == 32
        &&& self.csr.len() == 4096
        &&& self.clint.wf()
    }
}

impl Cpu {
    /// A hart in machine mode at `base_addr`, with the stack pointer at the top of memory.
    pub fn new(base_addr: u64, dump_count: u64) -> (c: Cpu)
        ensures
            c@.wf(),
            c@ == CpuState::initial(base_addr, dump_count),
    {
        let mut regs = [0u64; 32];
        regs[2] = DRAM_SIZE;
        let c = Cpu {
            regs,
            pc: base_addr,
            csr: Csr::new(),
            dest: REG_NUM,
            src1: REG_NUM,
            src2: REG_NUM,
            mode: M_MODE,
            dump_count,
            dump_interval: dump_count,
            cycle: 0,
            clint: Clint::new(CLINT_BASE, CLINT_SIZE),
            interrupt_list: InterruptList::new(),
            address_translation_cache: Tlb::new(),
            block_cache: HashMap::new(),
            halt: None,
        };
        assert(c@.regs =~= Seq::new(32, |i: int| if i == 2 { DRAM_SIZE } else { 0u64 }));
        assert(c@.blocks =~= Map::<u64, BlockState>::empty());
        assert(c@ =~= CpuState::initial(base_addr, dump_count));
        c
    }

    /// The saved form of this hart. Decoded blocks, register highlights and the dump counter
    /// are not kept.
    pub fn to_snapshot(&self) -> (s: CpuSnapshot)
        ensures
            s.regs@ == self@.regs,
            s.pc == self.pc,
            s.csr.csr@ == self@.csr,
            s.mode == self.mode,
            s.cycle == self.cycle,
            s.clint@ == self@.clint,
            s.interrupt_list@.to_set() == self@.interrupts,
            entries_map(s.address_translation_cache@) == self@.tlb,
    {
        let clint = Clint {
            start_addr: self.clint.start_addr,
            size: self.clint.size,
            registers: self.clint.registers.clone(),
        };
        assert(clint@ =~= self.clint@);
        CpuSnapshot {
            regs: self.regs,
            pc: self.pc,
            csr: self.csr.to_snapshot(),
            mode: self.mode,
            cycle: self.cycle,
            clint,
            interrupt_list: self.interrupt_list.to_vec(),
            address_translation_cache: self.address_translation_cache.to_entries(),
        }
    }

    /// The hart saved in `snapshot`, with no register highlighted, dumps off and no decoded
    /// blocks.
    pub fn from_snapshot(snapshot: CpuSnapshot) -> (c: Cpu)
        ensures
            c@.regs == snapshot.regs@,
            c@.pc == snapshot.pc,
            c@.csr == snapshot.csr.csr@,
            c@.dest == REG_NUM && c@.src1 == REG_NUM && c@.src2 == REG_NUM,
            c@.mode == snapshot.mode,
            c@.dump_count == 0,
            c@.dump_interval == 0,
            c@.cycle == snapshot.cycle,
            c@.clint == snapshot.clint@,
            c@.interrupts == snapshot.interrupt_list@.to_set(),
            c@.tlb == entries_map(snapshot.address_translation_cache@),
            c@.blocks == Map::<u64, BlockState>::empty(),
            c@.halt is None,
    {
        let interrupt_list = InterruptList::from_slice(snapshot.interrupt_list.as_slice());
        let tlb = Tlb::from_entries(snapshot.address_translation_cache.as_slice());
        let mut cpu = Cpu {
            regs: snapshot.regs,
            pc: snapshot.pc,
            csr: Csr::from_snapshot(snapshot.csr),
            dest: REG_NUM,
            src1: REG_NUM,
            src2: REG_NUM,
            mode: snapshot.mode,
            dump_count: 0,
            dump_interval: 0,
            cycle: snapshot.cycle,
            clint: snapshot.clint,
            interrupt_list,
            address_translation_cache: tlb,
            block_cache: HashMap::new(),
            halt: None,
        };
        cpu.clear_reg_marks();
        assert(cpu@.blocks =~= Map::<u64, BlockState>::empty());
        cpu
    }

    /// Dumps registers every `count` instructions from now on (never when zero).
    pub fn set_dump_count(&mut self, count: u64)
        ensures
            final(self)@ == (CpuState { dump_count: count, dump_interval: count, ..old(self)@ }),
    {
        self.dump_count = count;
        self.dump_interval = count;
        assert(self@ =~= (CpuState { dump_count: count, dump_interval: count, ..old(self)@ }));
    }

    /// Highlights `reg` as written.
    pub fn mark_as_dest(&mut self, reg: usize)
        ensures
            final(self)@ == (CpuState { dest: reg, ..old(self)@ }),
    {
        self.dest = reg;
        assert(self@ =~= (CpuState { dest: reg, ..old(self)@ }));
    }

    /// Highlights `reg` as the first source.
    pub fn mark_as_src1(&mut self, reg: usize)
        ensures
            final(self)@ == (CpuState { src1: reg, ..old(self)@ }),
    {
        self.src1 = reg;
        assert(self@ =~= (CpuState { src1: reg, ..old(self)@ }));
    }

    /// Highlights `reg` as the second source.
    pub fn mark_as_src2(&mut self, reg: usize)
        ensures
            final(self)@ == (CpuState { src2: reg, ..old(self)@ }),
    {
        self.src2 = reg;
        assert(self@ =~= (CpuState { src2: reg, ..old(self)@ }));
    }

    /// Highlights no register.
    pub fn clear_reg_marks(&mut self)
        ensures
            final(self)@ == (CpuState { dest: REG_NUM, src1: REG_NUM, src2: REG_NUM, ..old(self)@ }),
    {
        self.dest = REG_NUM;
        self.src1 = REG_NUM;
        self.src2 = REG_NUM;
        assert(self@ =~= (CpuState { dest: REG_NUM, src1: REG_NUM, src2: REG_NUM, ..old(self)@ }));
    }
}

} // verus!
