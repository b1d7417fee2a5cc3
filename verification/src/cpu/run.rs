use super::execute::{exec_spec, lemma_exec_blocks};
use super::mmu::{cpu_fetch_spec, lemma_access_frame};
use super::trap::{exception_trap, interrupt_to_take, interrupt_trap, update_pending_spec};
use super::{Cpu, CpuState, Halt};
use crate::bus::{Bus, BusState};
use crate::instruction::{decode_spec, ends_block_spec, instr_wf, BasicBlock, BlockState, DecodedInstr};
use crate::interrupt::Exception;
use vstd::prelude::*;

verus! {

/// Every instruction of a decoded block is well formed.
pub open spec fn block_wf(blk: BlockState) -> bool {
    forall|i: int| 0 <= i < blk.instrs.len() ==> instr_wf(#[trigger] blk.instrs[i])
}

/// Every block in the cache is well formed.
pub open spec fn blocks_wf(blocks: Map<u64, BlockState>) -> bool {
    forall|a: u64| #[trigger] blocks.contains_key(a) ==> block_wf(blocks[a])
}

impl CpuState {
    /// A well-formed hart whose cached blocks hold well-formed instructions.
    pub open spec fn runnable(self) -> bool {
        self.wf() && blocks_wf(self.blocks)
    }
}

/// The hart and bus after the interrupt poll that precedes each step: the cycle counter
/// advances (the hart halts if it would overflow), the interrupts posted by devices become
/// pending, the supervisor timer is brought up to date, and the interrupt to take, if any, is
/// taken.
pub open spec fn trap_interrupt_spec(c: CpuState, b: BusState) -> (CpuState, BusState) {
    if c.cycle == u64::MAX {
        (CpuState { halt: Some(Halt::Overflow), ..c }, b)
    } else {
        let c1 = CpuState { cycle: (c.cycle + 1) as u64, ..c };
        let (p2, i2) = b.plic.process_spec(c1.interrupts);
        let c2 = update_pending_spec(CpuState { interrupts: i2, ..c1 });
        let c3 = match interrupt_to_take(c2) {
            Some(i) => interrupt_trap(c2, i),
            None => c2,
        };
        (c3, BusState { plic: p2, ..b })
    }
}

/// The dump counter after one more instruction: it counts down and starts again from the
/// dump interval when it reaches zero (a register dump is due then); zero means dumps are off.
pub open spec fn dump_tick(c: CpuState) -> CpuState {
    if c.dump_count > 0 {
        if c.dump_count == 1 {
            CpuState { dump_count: c.dump_interval, ..c }
        } else {
            CpuState { dump_count: (c.dump_count - 1) as u64, ..c }
        }
    } else {
        c
    }
}

/// The hart with `x0` reset to zero and the program counter moved to the next instruction.
pub open spec fn advance(c: CpuState) -> CpuState {
    CpuState { regs: c.regs.update(0, 0), pc: c.pc.wrapping_add(4), ..c }
}

/// The hart after taking exception `e` raised by the instruction at the program counter: the
/// trap is taken and the program counter moves on (to the handler).
pub open spec fn trapped(c: CpuState, e: Exception) -> CpuState {
    let t = exception_trap(c, e);
    CpuState { pc: t.pc.wrapping_add(4), ..t }
}

/// What one step of the interpreter returns and leaves: the interrupt poll, then the
/// instruction at the program counter is fetched (a failed fetch returns 0 and goes no
/// further), decoded and executed; an exception it raises is taken. Then `x0` is reset, the
/// program counter moves on and the dump counter ticks; a program counter of zero means the
/// program finished. A hart that halts stops where it halted and the step returns 0.
pub open spec fn step_spec(c: CpuState, b: BusState) -> (u64, CpuState, BusState) {
    let (c1, b1) = trap_interrupt_spec(c, b);
    if c1.halt is Some {
        (0, c1, b1)
    } else {
        let (f, c2, b2) = cpu_fetch_spec(c1, b1, c1.pc);
        match f {
            Err(_) => (0, c2, b2),
            Ok(w) => {
                let (r, c3, b3) = exec_spec(c2, b2, decode_spec(w));
                if c3.halt is Some {
                    (0, c3, b3)
                } else {
                    let c4 = match r {
                        Err(e) => exception_trap(c3, e),
                        Ok(_) => c3,
                    };
                    if c4.halt is Some {
                        (0, c4, b3)
                    } else {
                        let c5 = dump_tick(advance(c4));
                        if c5.pc == 0 {
                            (0, CpuState { halt: Some(Halt::Finished), ..c5 }, b3)
                        } else {
                            (c5.pc, c5, b3)
                        }
                    }
                }
            },
        }
    }
}

/// What scanning at most `n` instructions from `pc` for a basic block finds: the instructions
/// fetched and decoded, how the block ended (the address of its last instruction, or of the
/// fetch that failed together with the exception it raised), and the hart and bus after the
/// fetches. A block ends after a branch, a jump-like instruction or an illegal instruction,
/// or at the first fetch that fails; `None` means it had not ended within `n` instructions.
pub open spec fn scan_spec(c: CpuState, b: BusState, pc: u64, n: nat) -> (
    Seq<DecodedInstr>,
    Option<(u64, Option<Exception>)>,
    CpuState,
    BusState,
)
    decreases n,
{
    if n == 0 {
        (Seq::empty(), None, c, b)
    } else {
        let (f, c1, b1) = cpu_fetch_spec(c, b, pc);
        match f {
            Err(e) => (Seq::empty(), Some((pc, Some(e))), c1, b1),
            Ok(w) => {
                let d = decode_spec(w);
                if ends_block_spec(d) {
                    (seq![d], Some((pc, None)), c1, b1)
                } else {
                    let (rest, end, c2, b2) = scan_spec(c1, b1, pc.wrapping_add(4), (n - 1) as nat);
                    (seq![d] + rest, end, c2, b2)
                }
            },
        }
    }
}

/// Once a scan has ended, scanning further finds the same.
pub proof fn lemma_scan_settles(c: CpuState, b: BusState, pc: u64, n: nat, m: nat)
    requires
        scan_spec(c, b, pc, n).1 is Some,
        n <= m,
    ensures
        scan_spec(c, b, pc, m) == scan_spec(c, b, pc, n),
    decreases n,
{
    if n > 0 {
        let (f, c1, b1) = cpu_fetch_spec(c, b, pc);
        if let Ok(w) = f {
            if !ends_block_spec(decode_spec(w)) {
                lemma_scan_settles(c1, b1, pc.wrapping_add(4), (n - 1) as nat, (m - 1) as nat);
            }
        }
    }
}

/// The result of building the basic block at the program counter, and the hart and bus
/// after it: a cached block is handed out as it is; otherwise the block is scanned (`n`
/// instructions suffice for the scan to end), cached and handed out, unless its first fetch
/// failed, which gives that fetch's exception.
pub open spec fn build_block_spec(c: CpuState, b: BusState, n: nat) -> (
    Result<BlockState, Exception>,
    CpuState,
    BusState,
) {
    if c.blocks.contains_key(c.pc) {
        (Ok(c.blocks[c.pc]), c, b)
    } else {
        let (instrs, end, c1, b1) = scan_spec(c, b, c.pc, n);
        let (end_pc, fault) = end.unwrap();
        if instrs.len() == 0 {
            (Err(fault.unwrap()), c1, b1)
        } else {
            let blk = BlockState { start_pc: c.pc, end_pc, instrs };
            (Ok(blk), CpuState { blocks: c1.blocks.insert(c.pc, blk), ..c1 }, b1)
        }
    }
}

/// A scanned block ends at its first block-ending instruction: none of its instructions but
/// the last ends a block, and the last one does unless the scan stopped at a failed fetch.
pub proof fn lemma_scan_shape(c: CpuState, b: BusState, pc: u64, n: nat)
    ensures
        ({
            let (instrs, end, c1, b1) = scan_spec(c, b, pc, n);
            &&& instrs.len() <= n
            &&& forall|i: int| 0 <= i < instrs.len() - 1 ==> !ends_block_spec(#[trigger] instrs[i])
            &&& end matches Some(e) ==> (e.1 is None ==> instrs.len() > 0 && ends_block_spec(
                instrs.last(),
            ))
            &&& end is None ==> instrs.len() == n && forall|i: int|
                0 <= i < instrs.len() ==> !ends_block_spec(#[trigger] instrs[i])
        }),
    decreases n,
{
    if n > 0 {
        let (f, c1, b1) = cpu_fetch_spec(c, b, pc);
        if let Ok(w) = f {
            let d = decode_spec(w);
            if !ends_block_spec(d) {
                lemma_scan_shape(c1, b1, pc.wrapping_add(4), (n - 1) as nat);
                let (rest, end, c2, b2) = scan_spec(c1, b1, pc.wrapping_add(4), (n - 1) as nat);
                let all = seq![d] + rest;
                assert forall|i: int| 0 <= i < all.len() - 1 implies !ends_block_spec(
                    #[trigger] all[i],
                ) by {
                    if i > 0 {
                        assert(all[i] == rest[i - 1]);
                    }
                }
                if end is None {
                    assert forall|i: int| 0 <= i < all.len() implies !ends_block_spec(
                        #[trigger] all[i],
                    ) by {
                        if i > 0 {
                            assert(all[i] == rest[i - 1]);
                        }
                    }
                }
                if rest.len() > 0 {
                    assert(all.last() == rest.last());
                }
            }
        }
    }
}

/// Scanning for a block leaves the cycle counter alone.
pub proof fn lemma_scan_cycle(c: CpuState, b: BusState, pc: u64, n: nat)
    ensures
        scan_spec(c, b, pc, n).2.cycle == c.cycle,
    decreases n,
{
    if n > 0 {
        lemma_access_frame(c, b, pc, 32, 0);
        let (f, c1, b1) = cpu_fetch_spec(c, b, pc);
        if let Ok(w) = f {
            lemma_scan_cycle(c1, b1, pc.wrapping_add(4), (n - 1) as nat);
        }
    }
}

/// Building the block at the program counter ends within `n` fetches (or finds it cached).
pub open spec fn settles(c: CpuState, b: BusState, n: nat) -> bool {
    c.blocks.contains_key(c.pc) || scan_spec(c, b, c.pc, n).1 is Some
}

/// The result of building the block at the program counter, when the scan ends at all.
pub open spec fn build_det(c: CpuState, b: BusState) -> (
    Result<BlockState, Exception>,
    CpuState,
    BusState,
) {
    build_block_spec(c, b, choose|n: nat| settles(c, b, n))
}

/// Any number of fetches within which the scan ends gives the same block.
pub proof fn lemma_build_det(c: CpuState, b: BusState, n: nat)
    requires
        settles(c, b, n),
    ensures
        build_block_spec(c, b, n) == build_det(c, b),
{
    let m = choose|m: nat| settles(c, b, m);
    assert(settles(c, b, m));
    if !c.blocks.contains_key(c.pc) {
        if n <= m {
            lemma_scan_settles(c, b, c.pc, n, m);
        } else {
            lemma_scan_settles(c, b, c.pc, m, n);
        }
    }
}

/// The state of a block run after its instructions from `k` on, with `count` instructions
/// retired so far: each instruction is executed; an exception it raises is taken and ends the
/// run; otherwise `x0` is reset, the program counter moves on, the cycle counter advances and
/// the dump counter ticks. A hart that halts stops the run.
pub open spec fn run_from(c: CpuState, b: BusState, instrs: Seq<DecodedInstr>, k: nat, count: u64) -> (
    CpuState,
    BusState,
    u64,
)
    decreases instrs.len() - k,
{
    if k >= instrs.len() {
        (c, b, count)
    } else {
        let (r, c1, b1) = exec_spec(c, b, instrs[k as int]);
        if c1.halt is Some {
            (c1, b1, count)
        } else {
            match r {
                Err(e) => (trapped(c1, e), b1, count),
                Ok(_) => {
                    let c2 = advance(c1);
                    if c2.cycle == u64::MAX {
                        (CpuState { halt: Some(Halt::Overflow), ..c2 }, b1, count)
                    } else {
                        let c3 = dump_tick(CpuState { cycle: (c2.cycle + 1) as u64, ..c2 });
                        run_from(c3, b1, instrs, k + 1, (count + 1) as u64)
                    }
                },
            }
        }
    }
}

/// The hart, bus and number of retired instructions after running block `blk` from its start.
pub open spec fn run_block_spec(c: CpuState, b: BusState, blk: BlockState) -> (CpuState, BusState, u64) {
    run_from(CpuState { pc: blk.start_pc, ..c }, b, blk.instrs, 0, 0)
}

/// A block run never moves the cycle counter back.
pub proof fn lemma_run_from_cycle(c: CpuState, b: BusState, instrs: Seq<DecodedInstr>, k: nat, count: u64)
    ensures
        run_from(c, b, instrs, k, count).0.cycle >= c.cycle,
    decreases instrs.len() - k,
{
    if k < instrs.len() {
        let (r, c1, b1) = exec_spec(c, b, instrs[k as int]);
        lemma_exec_blocks(c, b, instrs[k as int]);
        if c1.halt is None {
            if let Ok(_) = r {
                let c2 = advance(c1);
                if c2.cycle != u64::MAX {
                    let c3 = dump_tick(CpuState { cycle: (c2.cycle + 1) as u64, ..c2 });
                    lemma_run_from_cycle(c3, b1, instrs, k + 1, (count + 1) as u64);
                }
            }
        }
    }
}

impl Cpu {
    /// Polls interrupts before a step: advances the cycle counter, moves the interrupts the
    /// devices posted into the pending interrupts, updates the supervisor timer interrupt and
    /// takes the interrupt to take now, if any.
    pub fn trap_interrupt(&mut self, bus: &mut Bus)
        requires
            old(self)@.runnable(),
            old(bus)@.wf(),
        ensures
            final(self)@.runnable(),
            final(bus)@.wf(),
            (final(self)@, final(bus)@) == trap_interrupt_spec(old(self)@, old(bus)@),
    {
        if self.cycle == u64::MAX {
            self.halt = Some(Halt::Overflow);
            return;
        }
        self.cycle = self.cycle + 1;
        bus.process_pending_interrupts(&mut self.interrupt_list);
        self.update_pending_interrupts();
        if let Some(mut interrupt) = self.get_interrupt_to_take() {
            interrupt.take_trap(self);
        }
    }

    /// Dump bookkeeping after an instruction: the counter counts down and starts again from the
    /// interval when it reaches zero.
    fn tick_dump(&mut self)
        ensures
            final(self)@ == dump_tick(old(self)@),
    {
        if self.dump_count > 0 {
            self.dump_count = self.dump_count - 1;
            if self.dump_count == 0 {
                self.dump_count = self.dump_interval;
            }
        }
    }

    /// Runs one instruction: polls interrupts, fetches, decodes and executes the instruction at
    /// the program counter and takes the exception it raises, if any. Returns the new program
    /// counter, or 0 when the fetch failed, the hart halted or the program finished (the
    /// program counter reached zero).
    pub fn step_run(&mut self, bus: &mut Bus) -> (pc: u64)
        requires
            old(self)@.runnable(),
            old(bus)@.wf(),
        ensures
            final(self)@.runnable(),
            final(bus)@.wf(),
            (pc, final(self)@, final(bus)@) == step_spec(old(self)@, old(bus)@),
            final(self)@.halt is None && old(self)@.regs[0] == 0 ==> final(self)@.regs[0] == 0,
    {
        self.trap_interrupt(bus);
        if self.halt.is_some() {
            return 0;
        }
        let ghost c1 = self@;
        let ghost b1 = bus@;
        proof {
            lemma_access_frame(c1, b1, c1.pc, 32, 0);
        }
        let inst = match self.fetch(bus, self.pc) {
            Ok(inst) => inst,
            Err(_) => {
                return 0;
            },
        };
        let ghost c2 = self@;
        let ghost b2 = bus@;
        let decoded_inst = DecodedInstr::decode(inst);
        let result = self.execute(bus, &decoded_inst);
        proof {
            lemma_exec_blocks(c2, b2, decoded_inst);
        }
        if self.halt.is_some() {
            return 0;
        }
        match result {
            Err(e) => e.take_trap(self),
            Ok(_) => {},
        }
        if self.halt.is_some() {
            return 0;
        }
        self.regs[0] = 0;
        self.pc = self.pc.wrapping_add(4);
        self.tick_dump();
        if self.pc == 0 {
            self.halt = Some(Halt::Finished);
            return 0;
        }
        self.pc
    }

    /// The basic block that starts at the program counter: from the cache when it is there;
    /// otherwise instructions are fetched and decoded until one ends the block or a fetch
    /// fails, and the block is cached. A failure of the first fetch gives its exception.
    pub fn build_basic_block(&mut self, bus: &mut Bus) -> (r: Result<BasicBlock, Exception>)
        requires
            old(self)@.runnable(),
            old(bus)@.wf(),
        ensures
            final(self)@.runnable(),
            final(bus)@.wf(),
            exists|n: nat|
                {
                    &&& !old(self)@.blocks.contains_key(old(self)@.pc) ==> scan_spec(
                        old(self)@,
                        old(bus)@,
                        old(self)@.pc,
                        n,
                    ).1 is Some
                    &&& (match r {
                        Ok(blk) => Ok(blk@),
                        Err(e) => Err(e),
                    }, final(self)@, final(bus)@) == build_block_spec(old(self)@, old(bus)@, n)
                },
            (match r {
                Ok(blk) => Ok(blk@),
                Err(e) => Err(e),
            }, final(self)@, final(bus)@) == build_det(old(self)@, old(bus)@),
            r matches Ok(blk) ==> block_wf(blk@),
    {
        let pc = self.pc;
        if let Some(block) = self.block_cache.get(&pc) {
            let blk = block.duplicate();
            assert(build_block_spec(old(self)@, old(bus)@, 0) == (
                Ok::<BlockState, Exception>(blk@),
                self@,
                bus@,
            ));
            proof {
                lemma_build_det(old(self)@, old(bus)@, 0);
            }
            return Ok(blk);
        }
        let ghost c0 = self@;
        let ghost b0 = bus@;
        let mut instrs: Vec<DecodedInstr> = Vec::new();
        let mut cur_pc = pc;
        let ghost mut k: nat = 0;
        let mut fault: Option<Exception> = None;
        proof {
            assert forall|m: nat|
                scan_spec(c0, b0, pc, m) == (
                    instrs@ + scan_spec(self@, bus@, cur_pc, m).0,
                    scan_spec(self@, bus@, cur_pc, m).1,
                    scan_spec(self@, bus@, cur_pc, m).2,
                    scan_spec(self@, bus@, cur_pc, m).3,
                ) by {
                assert(instrs@ + scan_spec(self@, bus@, cur_pc, m).0 =~= scan_spec(
                    self@,
                    bus@,
                    cur_pc,
                    m,
                ).0);
            }
        }
        loop
            invariant_except_break
                c0 == old(self)@,
                b0 == old(bus)@,
                c0.runnable(),
                c0.pc == pc,
                !c0.blocks.contains_key(pc),
                fault is None,
                self@.wf(),
                bus@.wf(),
                self@.blocks == c0.blocks,
                instrs@.len() == k,
                forall|i: int| 0 <= i < instrs@.len() ==> instr_wf(#[trigger] instrs@[i]),
                forall|m: nat|
                    #[trigger] scan_spec(c0, b0, pc, k + m) == (
                        instrs@ + scan_spec(self@, bus@, cur_pc, m).0,
                        scan_spec(self@, bus@, cur_pc, m).1,
                        scan_spec(self@, bus@, cur_pc, m).2,
                        scan_spec(self@, bus@, cur_pc, m).3,
                    ),
            ensures
                c0 == old(self)@,
                b0 == old(bus)@,
                c0.runnable(),
                c0.pc == pc,
                !c0.blocks.contains_key(pc),
                self@.wf(),
                bus@.wf(),
                self@.blocks == c0.blocks,
                instrs@.len() > 0,
                forall|i: int| 0 <= i < instrs@.len() ==> instr_wf(#[trigger] instrs@[i]),
                scan_spec(c0, b0, pc, k) == (instrs@, Some((cur_pc, fault)), self@, bus@),
            decreases usize::MAX - instrs@.len(),
        {
            let ghost c1 = self@;
            let ghost b1 = bus@;
            proof {
                lemma_access_frame(c1, b1, cur_pc, 32, 0);
                assert(scan_spec(c0, b0, pc, k + 1) == (
                    instrs@ + scan_spec(c1, b1, cur_pc, 1).0,
                    scan_spec(c1, b1, cur_pc, 1).1,
                    scan_spec(c1, b1, cur_pc, 1).2,
                    scan_spec(c1, b1, cur_pc, 1).3,
                ));
            }
            let inst = match self.fetch(bus, cur_pc) {
                Ok(inst) => inst,
                Err(e) => {
                    if instrs.len() == 0 {
                        proof {
                            assert(instrs@ + Seq::<DecodedInstr>::empty() =~= instrs@);
                            assert(scan_spec(c0, b0, pc, 1) == (
                                Seq::<DecodedInstr>::empty(),
                                Some((pc, Some(e))),
                                self@,
                                bus@,
                            ));
                            assert(build_block_spec(c0, b0, 1) == (
                                Err::<BlockState, Exception>(e),
                                self@,
                                bus@,
                            ));
                            lemma_build_det(c0, b0, 1);
                        }
                        return Err(e);
                    }
                    fault = Some(e);
                    proof {
                        assert(instrs@ + Seq::<DecodedInstr>::empty() =~= instrs@);
                        k = k + 1;
                    }
                    break;
                },
            };
            let decoded_inst = DecodedInstr::decode(inst);
            let is_end = decoded_inst.is_building_block_end();
            let ghost prev = instrs@;
            instrs.push(decoded_inst);
            let _ = instrs.len();
            if is_end {
                proof {
                    assert(scan_spec(c1, b1, cur_pc, 1) == (
                        seq![decoded_inst],
                        Some((cur_pc, None::<Exception>)),
                        self@,
                        bus@,
                    ));
                    assert(prev + seq![decoded_inst] =~= instrs@);
                    k = k + 1;
                }
                break;
            }
            proof {
                assert forall|m: nat|
                    #[trigger] scan_spec(c0, b0, pc, (k + 1) + m) == (
                        instrs@ + scan_spec(self@, bus@, cur_pc.wrapping_add(4), m).0,
                        scan_spec(self@, bus@, cur_pc.wrapping_add(4), m).1,
                        scan_spec(self@, bus@, cur_pc.wrapping_add(4), m).2,
                        scan_spec(self@, bus@, cur_pc.wrapping_add(4), m).3,
                    ) by {
                    assert(scan_spec(c0, b0, pc, k + (m + 1)) == (
                        prev + scan_spec(c1, b1, cur_pc, m + 1).0,
                        scan_spec(c1, b1, cur_pc, m + 1).1,
                        scan_spec(c1, b1, cur_pc, m + 1).2,
                        scan_spec(c1, b1, cur_pc, m + 1).3,
                    ));
                    assert(k + (m + 1) == (k + 1) + m);
                    assert(prev + (seq![decoded_inst] + scan_spec(self@, bus@, cur_pc.wrapping_add(4), m).0)
                        =~= instrs@ + scan_spec(self@, bus@, cur_pc.wrapping_add(4), m).0);
                }
                k = k + 1;
            }
            cur_pc = cur_pc.wrapping_add(4);
        }
        let block = BasicBlock { start_pc: pc, end_pc: cur_pc, instrs };
        let cached = block.duplicate();
        self.block_cache.insert(pc, cached);
        proof {
            assert(self@.blocks =~= c0.blocks.insert(pc, block@));
            assert(build_block_spec(c0, b0, k) == (Ok::<BlockState, Exception>(block@), self@, bus@));
            lemma_build_det(c0, b0, k);
        }
        Ok(block)
    }

    /// Runs the instructions of `block` from its start and returns how many retired. An
    /// exception is taken and ends the run; a halt stops it.
    pub fn run_block(&mut self, bus: &mut Bus, block: &BasicBlock) -> (count: u64)
        requires
            old(self)@.runnable(),
            old(bus)@.wf(),
            block_wf(block@),
        ensures
            final(self)@.runnable(),
            final(bus)@.wf(),
            (final(self)@, final(bus)@, count) == run_block_spec(old(self)@, old(bus)@, block@),
    {
        self.pc = block.start_pc;
        let mut cycle: u64 = 0;
        let mut k: usize = 0;
        while k < block.instrs.len()
            invariant
                self@.runnable(),
                bus@.wf(),
                block_wf(block@),
                k <= block.instrs@.len(),
                cycle == k,
                run_from(self@, bus@, block.instrs@, k as nat, cycle) == run_block_spec(
                    old(self)@,
                    old(bus)@,
                    block@,
                ),
            decreases block.instrs@.len() - k,
        {
            let instr = block.instrs[k];
            let ghost c0 = self@;
            let ghost b0 = bus@;
            let result = self.execute(bus, &instr);
            proof {
                lemma_exec_blocks(c0, b0, instr);
            }
            if self.halt.is_some() {
                return cycle;
            }
            match result {
                Err(e) => {
                    e.take_trap(self);
                    self.pc = self.pc.wrapping_add(4);
                    return cycle;
                },
                Ok(_) => {},
            }
            self.regs[0] = 0;
            self.pc = self.pc.wrapping_add(4);
            if self.cycle == u64::MAX {
                self.halt = Some(Halt::Overflow);
                return cycle;
            }
            self.cycle = self.cycle + 1;
            self.tick_dump();
            cycle = cycle + 1;
            k = k + 1;
        }
        cycle
    }
}


/// One step after the instruction at the program counter executed without an exception or a
/// halt: the next program counter is the one the instruction left plus 4 (the step returns
/// it), `x0` reads zero again, every other register keeps what the instruction wrote, and
/// the bus is as the instruction left it; a program counter that comes round to zero ends
/// the program instead.
pub proof fn lemma_step_advances(c: CpuState, b: BusState)
    ensures
        ({
            let (c1, b1) = trap_interrupt_spec(c, b);
            let (f, c2, b2) = cpu_fetch_spec(c1, b1, c1.pc);
            c1.halt is None && f is Ok ==> {
                let w = match f {
                    Ok(w) => w,
                    Err(_) => 0u32,
                };
                let (r, c3, b3) = exec_spec(c2, b2, decode_spec(w));
                let (pc, c5, b5) = step_spec(c, b);
                r is Ok && c3.halt is None ==> {
                    &&& b5 == b3
                    &&& c5.regs == c3.regs.update(0, 0)
                    &&& c3.pc.wrapping_add(4) != 0 ==> pc == c3.pc.wrapping_add(4) && c5.pc == pc
                        && c5.halt is None
                    &&& c3.pc.wrapping_add(4) == 0 ==> pc == 0 && c5.halt == Some(Halt::Finished)
                }
            }
        }),
{
}

} // verus!
