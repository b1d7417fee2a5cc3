use crate::bus::{Bus, BusState, VIRTIO_BASE};
use crate::cpu::run::{
    block_wf, build_det, lemma_build_det, lemma_run_from_cycle, lemma_scan_cycle, run_block_spec, settles,
    step_spec, trap_interrupt_spec, trapped,
};
use crate::cpu::trap::exception_trap;
use crate::clint::MTIME;
use crate::cpu::tlb::entries_map;
use crate::cpu::{Cpu, CpuSnapshot, CpuState, Halt, REG_NUM};
use crate::instruction::{BasicBlock, BlockState};
use crate::dram::{byte_of, lemma_le_bytes, le_value, le_write, Dram, DRAM_SIZE};
use crate::elf::u8_slice_to_u64;
use crate::plic::{lemma_sorted_members, plic_snapshot_of, PlicSnapshot, PlicState, PLIC_REGS, PLIC_SIZE};
use crate::uart::{UartSnapshot, UartState, UART_SIZE};
use crate::virtio::{disk_access_spec, disk_access_state, Virtio, VirtioSnapshot, VirtioState, QUEUE_IDLE, VIRTIO_SIZE};
use vstd::prelude::*;

verus! {

/// How the emulator runs: one instruction at a time, or block by block.
pub enum ExecMode {
    Step,
    Continue,
}

/// Why a run stopped.
#[derive(Clone, Copy, Debug, PartialEq, Eq, Structural)]
pub enum Event {
    /// A step (or the requested number of cycles) is done.
    DoneStep,
    /// The hart halted.
    Halted,
    /// The program counter reached a breakpoint.
    Break,
}

/// What a run returned with.
#[derive(Clone, Copy, Debug, PartialEq, Eq, Structural)]
pub enum RunEvent {
    /// Data arrived for the debugger.
    IncomingData,
    /// The run stopped.
    Event(Event),
    /// The run paused because a snapshot is due; running again resumes it.
    SnapshotDue,
}

/// The bookkeeping the continuous run carries from one round to the next: instructions
/// retired since the last snapshot, instructions retired by the last block run, and whether a
/// round has finished whose breakpoint check is still to be made.
pub struct RunCounters {
    pub since_snapshot: u64,
    pub last_block: u64,
    pub round_done: bool,
}

impl RunCounters {
    /// The counters a run starts with.
    pub fn new() -> (r: RunCounters)
        ensures
            r.since_snapshot == 0,
            r.last_block == 1,
            !r.round_done,
    {
        RunCounters { since_snapshot: 0, last_block: 1, round_done: false }
    }
}

/// A hart and its bus, with the breakpoints set by the debugger.
pub struct Emu {
    pub breakpoints: Vec<u64>,
    pub exec_mode: ExecMode,
    pub cpu: Cpu,
    pub bus: Bus,
    pub snapshot_interval: u64,
}

/// The saved emulator.
pub struct EmuSnapshot {
    pub cpu: CpuSnapshot,
    pub dram: Dram,
    pub uart: UartSnapshot,
    pub plic: PlicSnapshot,
    pub virtio: VirtioSnapshot,
}

/// The bus after the virtio device served the request waiting at it, if any; `None` when
/// the request reaches outside memory or the disk image.
pub open spec fn virtio_spec(b: BusState) -> Option<BusState> {
    match b.virtio {
        None => Some(b),
        Some(v) => match disk_access_spec(v, b.mem, b.base) {
            None => None,
            Some((v2, m2)) => Some(BusState { virtio: Some(v2), mem: m2, ..b }),
        },
    }
}

/// The block part of a round of the continuous run: the block at the program counter is
/// built and run, or the exception of its first fetch is taken; the instructions it retired
/// are added to the count since the last snapshot, and a snapshot is due once that count
/// exceeds `interval` (the count then goes on from the remainder). Gives whether a snapshot
/// is due, the hart, the bus, and the counts since the last snapshot and of the last block.
pub open spec fn block_round_spec(c: CpuState, b: BusState, interval: u64, since: u64, last: u64) -> (
    bool,
    CpuState,
    BusState,
    u64,
    u64,
) {
    let (br, c1, b1) = build_det(c, b);
    if c1.halt is Some {
        (false, c1, b1, since, last)
    } else {
        let (c2, b2, last2) = match br {
            Ok(blk) => run_block_spec(c1, b1, blk),
            Err(e) => (trapped(c1, e), b1, last),
        };
        if c2.halt is Some {
            (false, c2, b2, since, last2)
        } else if since + last2 > u64::MAX {
            (false, CpuState { halt: Some(Halt::Overflow), ..c2 }, b2, since, last2)
        } else if since + last2 > interval {
            (true, c2, b2, ((since + last2) % (interval as int)) as u64, last2)
        } else {
            (false, c2, b2, (since + last2) as u64, last2)
        }
    }
}

/// The bus after the virtio device gave up on the request waiting at it: what it moved and
/// wrote before the failing access stays.
pub open spec fn virtio_failed_bus(b: BusState) -> BusState {
    match b.virtio {
        None => b,
        Some(v) => BusState {
            virtio: Some(disk_access_state(v, b.mem, b.base).0),
            mem: disk_access_state(v, b.mem, b.base).1,
            ..b
        },
    }
}

/// A round of the continuous run: the interrupt poll, the virtio service (a request that
/// cannot be served halts the hart), then the block part.
pub open spec fn round_spec(c: CpuState, b: BusState, interval: u64, since: u64, last: u64) -> (
    bool,
    CpuState,
    BusState,
    u64,
    u64,
) {
    let (c1, b1) = trap_interrupt_spec(c, b);
    if c1.halt is Some {
        (false, c1, b1, since, last)
    } else {
        match virtio_spec(b1) {
            None => (
                false,
                CpuState { halt: Some(Halt::DiskAccess), ..c1 },
                virtio_failed_bus(b1),
                since,
                last,
            ),
            Some(b2) => block_round_spec(c1, b2, interval, since, last),
        }
    }
}

/// The continuous run until the cycle counter reaches `iteration`, with at most `k` more
/// rounds: a finished round is followed by its breakpoint check; the run stops at a
/// breakpoint, when the cycle counter reached `iteration`, when the hart halts, and after a
/// round at which a snapshot is due. `None` when it has not stopped within `k` rounds.
pub open spec fn run_for_spec(
    c: CpuState,
    b: BusState,
    bps: Seq<u64>,
    interval: u64,
    iteration: u64,
    since: u64,
    last: u64,
    done: bool,
    k: nat,
) -> Option<(RunEvent, CpuState, BusState, u64, u64, bool)>
    decreases k,
{
    if done && bps.contains(c.pc) {
        Some((RunEvent::Event(Event::Break), c, b, since, last, false))
    } else if c.cycle >= iteration {
        Some((RunEvent::Event(Event::DoneStep), c, b, since, last, false))
    } else if k == 0 {
        None
    } else {
        let (snap, c1, b1, since1, last1) = round_spec(c, b, interval, since, last);
        if c1.halt is Some {
            Some((RunEvent::Event(Event::Halted), c1, b1, since1, last1, false))
        } else if snap {
            Some((RunEvent::SnapshotDue, c1, b1, since1, last1, true))
        } else {
            run_for_spec(c1, b1, bps, interval, iteration, since1, last1, true, (k - 1) as nat)
        }
    }
}

/// What a single step of the emulator reports, and the hart and bus after it: `Halted` when
/// the hart halted, `Break` when the step returned the address of a breakpoint.
pub open spec fn step_outcome(c: CpuState, b: BusState, bps: Seq<u64>) -> (
    Option<Event>,
    CpuState,
    BusState,
) {
    let (pc, c1, b1) = step_spec(c, b);
    if c1.halt is Some {
        (Some(Event::Halted), c1, b1)
    } else if bps.contains(pc) {
        (Some(Event::Break), c1, b1)
    } else {
        (None, c1, b1)
    }
}

/// A round that neither halts the hart nor makes a snapshot due, after no breakpoint was hit
/// and before the cycle target was reached, leaves the rest of the run to the next rounds.
pub proof fn lemma_run_for_round(
    c: CpuState,
    b: BusState,
    bps: Seq<u64>,
    interval: u64,
    iteration: u64,
    since: u64,
    last: u64,
    done: bool,
    k: nat,
)
    requires
        !(done && bps.contains(c.pc)),
        c.cycle < iteration,
    ensures
        ({
            let (snap, c1, b1, s1, l1) = round_spec(c, b, interval, since, last);
            c1.halt is None && !snap ==> run_for_spec(
                c,
                b,
                bps,
                interval,
                iteration,
                since,
                last,
                done,
                k + 1,
            ) == run_for_spec(c1, b1, bps, interval, iteration, s1, l1, true, k)
        }),
{
}

/// The saved virtio device when there is none: idle, at its usual place, with no disk.
pub open spec fn idle_virtio_snapshot(v: VirtioSnapshot) -> bool {
    &&& v.start_addr == VIRTIO_BASE
    &&& v.id == 0
    &&& v.driver_features == 0
    &&& v.page_size == 0
    &&& v.queue_sel == 0
    &&& v.queue_num == 0
    &&& v.queue_pfn == 0
    &&& v.queue_notify == QUEUE_IDLE
    &&& v.desc_addr == 0
    &&& v.avail_addr == 0
    &&& v.used_addr == 0
    &&& v.status == 0
    &&& v.disk@ == Seq::<u8>::empty()
}

/// The saved virtio device `s` holds the registers and disk of `v`.
pub open spec fn virtio_saved(s: VirtioSnapshot, v: VirtioState) -> bool {
    &&& s.start_addr == v.start_addr
    &&& s.id == v.id
    &&& s.driver_features == v.driver_features
    &&& s.page_size == v.page_size
    &&& s.queue_sel == v.queue_sel
    &&& s.queue_num == v.queue_num
    &&& s.queue_pfn == v.queue_pfn
    &&& s.queue_notify == v.queue_notify
    &&& s.desc_addr == v.desc_addr
    &&& s.avail_addr == v.avail_addr
    &&& s.used_addr == v.used_addr
    &&& s.status == v.status
    &&& s.disk@ == v.disk
}

/// `s` saves the hart `c` and the bus `b`: registers, program counter, CSRs, privilege mode,
/// cycle counter, CLINT, pending interrupts and cached translations of the hart; memory, the
/// UART's place, the PLIC's registers and claimable interrupts, and the virtio device (an idle
/// one when there is none).
pub open spec fn snapshot_of(s: EmuSnapshot, c: CpuState, b: BusState) -> bool {
    &&& s.cpu.regs@ == c.regs
    &&& s.cpu.pc == c.pc
    &&& s.cpu.csr.csr@ == c.csr
    &&& s.cpu.mode == c.mode
    &&& s.cpu.cycle == c.cycle
    &&& s.cpu.clint@ == c.clint
    &&& s.cpu.interrupt_list@.to_set() == c.interrupts
    &&& entries_map(s.cpu.address_translation_cache@) == c.tlb
    &&& s.dram.dram_base == b.base
    &&& s.dram.dram@ == b.mem
    &&& s.uart.start_addr == b.uart.start_addr
    &&& s.plic.start_addr == b.plic.start_addr
    &&& s.plic.regs@ == b.plic.regs
    &&& plic_snapshot_of(s.plic, b.plic)
    &&& match b.virtio {
        Some(v) => virtio_saved(s.virtio, v),
        None => idle_virtio_snapshot(s.virtio),
    }
}

/// The hart restored from `s`: no register highlighted, dumps off, no decoded block cached.
pub open spec fn snapshot_cpu(s: EmuSnapshot) -> CpuState {
    CpuState {
        regs: s.cpu.regs@,
        pc: s.cpu.pc,
        csr: s.cpu.csr.csr@,
        dest: REG_NUM,
        src1: REG_NUM,
        src2: REG_NUM,
        mode: s.cpu.mode,
        dump_count: 0,
        dump_interval: 0,
        cycle: s.cpu.cycle,
        clint: s.cpu.clint@,
        interrupts: s.cpu.interrupt_list@.to_set(),
        tlb: entries_map(s.cpu.address_translation_cache@),
        blocks: Map::empty(),
        halt: None,
    }
}

/// The bus restored from `s`: nothing received or sent on the UART, nothing posted to the
/// PLIC, no virtio notification outstanding.
pub open spec fn snapshot_bus(s: EmuSnapshot) -> BusState {
    BusState {
        base: s.dram.dram_base,
        mem: s.dram.dram@,
        uart: UartState { start_addr: s.uart.start_addr, recv: Seq::empty(), out: Seq::empty() },
        plic: PlicState {
            start_addr: s.plic.start_addr,
            regs: s.plic.regs@,
            pending: Seq::empty(),
            list: s.plic.external_interrupt_list@.to_set(),
        },
        virtio: Some(
            VirtioState {
                start_addr: s.virtio.start_addr,
                id: s.virtio.id,
                driver_features: s.virtio.driver_features,
                page_size: s.virtio.page_size,
                queue_sel: s.virtio.queue_sel,
                queue_num: s.virtio.queue_num,
                queue_pfn: s.virtio.queue_pfn,
                desc_addr: s.virtio.desc_addr,
                avail_addr: s.virtio.avail_addr,
                used_addr: s.virtio.used_addr,
                queue_notify: s.virtio.queue_notify,
                status: s.virtio.status,
                disk: s.virtio.disk@,
                notified: false,
            },
        ),
    }
}

impl EmuSnapshot {
    /// An emulator can be restored from this snapshot: memory of full size, a well-formed
    /// CLINT and PLIC register file, and device windows that do not wrap around.
    pub open spec fn valid(&self) -> bool {
        &&& self.dram.dram@.len() == DRAM_SIZE
        &&& self.cpu.clint@.wf()
        &&& self.uart.start_addr + UART_SIZE <= u64::MAX
        &&& self.plic.start_addr + PLIC_SIZE <= u64::MAX
        &&& self.plic.regs@.len() == PLIC_REGS
        &&& self.virtio.start_addr + VIRTIO_SIZE <= u64::MAX
    }

    /// Whether an emulator can be restored from this snapshot.
    pub fn is_valid(&self) -> (b: bool)
        ensures
            b == self.valid(),
    {
        let clint = &self.cpu.clint;
        self.dram.dram.len() == DRAM_SIZE as usize && clint.start_addr <= u64::MAX - clint.size
            && clint.size % 8 == 0 && MTIME < clint.size && clint.registers.len() as u64
            == clint.size / 8 && self.uart.start_addr <= u64::MAX - UART_SIZE
            && self.plic.start_addr <= u64::MAX - PLIC_SIZE && self.plic.regs.len()
            == PLIC_REGS as usize && self.virtio.start_addr <= u64::MAX - VIRTIO_SIZE
    }
}

/// Saving an emulator and restoring it gives back its hart and bus, but for what a snapshot
/// does not keep: register highlights, the dump counter, decoded blocks and the halt reason
/// of the hart; what the UART received and sent, the interrupts posted to the PLIC and not yet
/// processed, and an outstanding virtio notification. A bus without a virtio device comes back
/// with an idle one. A snapshot of a runnable emulator can always be restored.
pub proof fn lemma_snapshot_roundtrip(s: EmuSnapshot, c: CpuState, b: BusState)
    requires
        snapshot_of(s, c, b),
    ensures
        snapshot_cpu(s) == (CpuState {
            dest: REG_NUM,
            src1: REG_NUM,
            src2: REG_NUM,
            dump_count: 0,
            dump_interval: 0,
            blocks: Map::empty(),
            halt: None,
            ..c
        }),
        snapshot_bus(s) == (BusState {
            uart: UartState { recv: Seq::empty(), out: Seq::empty(), ..b.uart },
            plic: PlicState { pending: Seq::empty(), ..b.plic },
            virtio: Some(
                match b.virtio {
                    Some(v) => VirtioState { notified: false, ..v },
                    None => VirtioState::initial(VIRTIO_BASE),
                },
            ),
            ..b
        }),
        c.wf() && b.wf() ==> s.valid(),
{
    lemma_sorted_members(b.plic.list);
    assert(snapshot_cpu(s) =~= (CpuState {
        dest: REG_NUM,
        src1: REG_NUM,
        src2: REG_NUM,
        dump_count: 0,
        dump_interval: 0,
        blocks: Map::empty(),
        halt: None,
        ..c
    }));
    assert(snapshot_bus(s).uart =~= UartState { recv: Seq::empty(), out: Seq::empty(), ..b.uart });
    assert(snapshot_bus(s).plic =~= PlicState { pending: Seq::empty(), ..b.plic });
}

/// The first breakpoint of `bps`, from position `i` on, inside `[start, end)`.
pub open spec fn first_break_in(bps: Seq<u64>, start: u64, end: u64, i: int) -> Option<u64>
    decreases bps.len() - i,
{
    if i < 0 || i >= bps.len() {
        None
    } else if start <= bps[i] && bps[i] < end {
        Some(bps[i])
    } else {
        first_break_in(bps, start, end, i + 1)
    }
}

/// The `k` low bytes of `v`, least significant first.
pub open spec fn low_bytes(v: u64, k: nat) -> Seq<u8> {
    Seq::new(k, |j: int| byte_of(v, j as nat))
}

/// What a debugger read of `n` bytes from `addr` gives, and the bus after it: 64-bit words
/// while at least 8 bytes remain, then single bytes. A read beyond memory, a read the bus
/// refuses, or an address that would wrap around makes it fail.
pub open spec fn debug_read_spec(b: BusState, addr: u64, n: nat) -> (Result<Seq<u8>, ()>, BusState)
    decreases n,
{
    if n == 0 {
        (Ok(Seq::empty()), b)
    } else {
        let (size, k) = if n >= 8 { (64u64, 8nat) } else { (8u64, 1nat) };
        if !b.mem_access_defined(addr, size) {
            (Err(()), b)
        } else {
            let (r, b1) = b.load_spec(addr, size);
            match r {
                Err(_) => (Err(()), b1),
                Ok(v) => if n > k && addr + k > u64::MAX {
                    (Err(()), b1)
                } else {
                    let (rest, b2) = debug_read_spec(b1, (addr + k) as u64, (n - k) as nat);
                    match rest {
                        Ok(t) => (Ok(low_bytes(v, k) + t), b2),
                        Err(_) => (Err(()), b2),
                    }
                },
            }
        }
    }
}

/// What a debugger write of `data` at `addr` gives, and the bus after it: 64-bit
/// little-endian words while at least 8 bytes remain, then single bytes. A write beyond
/// memory, a write the bus refuses, or an address that would wrap around makes it fail.
pub open spec fn debug_write_spec(b: BusState, addr: u64, data: Seq<u8>) -> (Result<(), ()>, BusState)
    decreases data.len(),
{
    if data.len() == 0 {
        (Ok(()), b)
    } else {
        let (size, k) = if data.len() >= 8 { (64u64, 8nat) } else { (8u64, 1nat) };
        let value = if k == 8 { le_value(data, 0, 8) as u64 } else { data[0] as u64 };
        if !b.mem_access_defined(addr, size) {
            (Err(()), b)
        } else {
            let (r, b1) = b.store_spec(addr, size, value);
            match r {
                Err(_) => (Err(()), b1),
                Ok(_) => if data.len() > k && addr + k > u64::MAX {
                    (Err(()), b1)
                } else {
                    debug_write_spec(b1, (addr + k) as u64, data.subrange(k as int, data.len() as int))
                },
            }
        }
    }
}

/// `mem` with `data` written from index `o` on.
pub open spec fn splice(mem: Seq<u8>, o: int, data: Seq<u8>) -> Seq<u8> {
    Seq::new(mem.len(), |j: int| if o <= j < o + data.len() { data[j - o] } else { mem[j] })
}

/// Whether the `n` bytes from `addr` lie in main memory (and so below 2^64).
pub open spec fn in_memory(b: BusState, addr: u64, n: nat) -> bool {
    &&& b.base <= addr
    &&& addr - b.base + n <= b.mem.len()
    &&& addr + n <= u64::MAX + 1
}

/// A debugger read inside memory gives the bytes there and changes nothing.
pub proof fn lemma_debug_read_mem(b: BusState, addr: u64, n: nat)
    requires
        in_memory(b, addr, n),
    ensures
        debug_read_spec(b, addr, n) == (
            Ok::<Seq<u8>, ()>(b.mem.subrange(addr - b.base, addr - b.base + n)),
            b,
        ),
    decreases n,
{
    let o = addr - b.base;
    if n == 0 {
        assert(b.mem.subrange(o, o) =~= Seq::<u8>::empty());
    } else {
        let (size, k) = if n >= 8 { (64u64, 8nat) } else { (8u64, 1nat) };
        lemma_le_bytes(b.mem, o, k);
        let v = le_value(b.mem, o, k) as u64;
        if n > k {
            lemma_debug_read_mem(b, (addr + k) as u64, (n - k) as nat);
        } else {
            assert(debug_read_spec(b, (addr + k) as u64, 0) == (Ok::<Seq<u8>, ()>(Seq::empty()), b));
            assert(b.mem.subrange(o + k, o + n) =~= Seq::<u8>::empty());
        }
        assert(low_bytes(v, k) =~= b.mem.subrange(o, o + k));
        assert(low_bytes(v, k) + b.mem.subrange(o + k, o + n) =~= b.mem.subrange(o, o + n));
    }
}

/// A debugger write inside memory succeeds and puts `data` there, changing nothing else.
pub proof fn lemma_debug_write_mem(b: BusState, addr: u64, data: Seq<u8>)
    requires
        in_memory(b, addr, data.len()),
    ensures
        debug_write_spec(b, addr, data) == (
            Ok::<(), ()>(()),
            BusState { mem: splice(b.mem, addr - b.base, data), ..b },
        ),
    decreases data.len(),
{
    let o = addr - b.base;
    if data.len() == 0 {
        assert(splice(b.mem, o, data) =~= b.mem);
        assert(b == BusState { mem: splice(b.mem, o, data), ..b });
    } else {
        let (size, k) = if data.len() >= 8 { (64u64, 8nat) } else { (8u64, 1nat) };
        lemma_le_bytes(data, 0, k);
        let value = if k == 8 { le_value(data, 0, 8) as u64 } else { data[0] as u64 };
        assert(k == 1 ==> value == le_value(data, 0, 1) as u64) by {
            reveal_with_fuel(le_value, 2);
        }
        let b1 = BusState { mem: le_write(b.mem, o, k, value), ..b };
        assert(b.store_spec(addr, size, value).0 is Ok && b.store_spec(addr, size, value).1 == b1);
        let rest = data.subrange(k as int, data.len() as int);
        if data.len() > k {
            lemma_debug_write_mem(b1, (addr + k) as u64, rest);
        } else {
            assert(rest =~= Seq::<u8>::empty());
            assert(debug_write_spec(b1, (addr + k) as u64, rest) == (Ok::<(), ()>(()), b1));
            assert(splice(b1.mem, o + k, rest) =~= b1.mem);
            assert(b1 == BusState { mem: splice(b1.mem, o + k, rest), ..b1 });
        }
        assert(splice(b1.mem, o + k, rest) =~= splice(b.mem, o, data));
    }
}

/// A debugger write inside memory reads back: after it succeeds, reading the same bytes gives
/// the data written.
pub proof fn lemma_debug_write_read(b: BusState, addr: u64, data: Seq<u8>)
    requires
        in_memory(b, addr, data.len()),
    ensures
        debug_write_spec(b, addr, data).0 is Ok,
        debug_read_spec(debug_write_spec(b, addr, data).1, addr, data.len()) == (
            Ok::<Seq<u8>, ()>(data),
            debug_write_spec(b, addr, data).1,
        ),
{
    lemma_debug_write_mem(b, addr, data);
    let b1 = debug_write_spec(b, addr, data).1;
    lemma_debug_read_mem(b1, addr, data.len());
    let o = addr - b.base;
    assert(b1.mem.subrange(o, o + data.len()) =~= data);
}

/// The first breakpoint of `bps` inside `[start, end)`.
fn first_break(bps: &Vec<u64>, start: u64, end: u64) -> (r: Option<u64>)
    ensures
        r == first_break_in(bps@, start, end, 0),
{
    let mut i: usize = 0;
    while i < bps.len()
        invariant
            i <= bps@.len(),
            first_break_in(bps@, start, end, 0) == first_break_in(bps@, start, end, i as int),
        decreases bps@.len() - i,
    {
        let b = bps[i];
        if start <= b && b < end {
            return Some(b);
        }
        i = i + 1;
    }
    None
}

/// The little-endian value of the first `n` bytes of `s` is that of its prefix.
proof fn lemma_le_prefix(s: Seq<u8>, n: nat)
    requires
        n <= s.len(),
    ensures
        le_value(s.subrange(0, n as int), 0, n) == le_value(s, 0, n),
{
    lemma_le_prefix_from(s, n, 0, n);
}

proof fn lemma_le_prefix_from(s: Seq<u8>, n: nat, i: int, m: nat)
    requires
        n <= s.len(),
        0 <= i,
        i + m <= n,
    ensures
        le_value(s.subrange(0, n as int), i, m) == le_value(s, i, m),
    decreases m,
{
    if m > 0 {
        lemma_le_prefix_from(s, n, i + 1, (m - 1) as nat);
    }
}

/// Whether `v` holds `a`.
fn contains_addr(v: &Vec<u64>, a: u64) -> (b: bool)
    ensures
        b == v@.contains(a),
{
    let mut i: usize = 0;
    while i < v.len()
        invariant
            i <= v@.len(),
            forall|j: int| 0 <= j < i ==> v@[j] != a,
        decreases v@.len() - i,
    {
        if v[i] == a {
            return true;
        }
        i = i + 1;
    }
    false
}

impl Emu {
    /// A runnable emulator: a runnable, running hart, a well-formed bus and a positive
    /// snapshot interval.
    pub open spec fn wf(&self) -> bool {
        &&& self.cpu@.runnable()
        &&& self.cpu@.halt is None
        &&& self.bus@.wf()
        &&& self.snapshot_interval > 0
    }

    /// An emulator with `binary` loaded at the start of memory (mapped at `base_addr`), the
    /// hart in machine mode at `base_addr`, no breakpoints, running block by block.
    pub fn new(binary: Vec<u8>, base_addr: u64, dump_count: u64, snapshot_interval: u64) -> (e:
        Emu)
        requires
            binary.len() <= DRAM_SIZE,
        ensures
            e.cpu@.runnable(),
            e.cpu@.halt is None,
            e.bus@.wf(),
            e.cpu@ == CpuState::initial(base_addr, dump_count),
            e.bus@ == BusState::initial(binary@, base_addr),
            e.breakpoints@ == Seq::<u64>::empty(),
            e.exec_mode is Continue,
            e.snapshot_interval == snapshot_interval,
    {
        let bus = Bus::new(binary, base_addr);
        let cpu = Cpu::new(base_addr, dump_count);
        Emu { breakpoints: Vec::new(), exec_mode: ExecMode::Continue, cpu, bus, snapshot_interval }
    }

    /// Whether a snapshot is due after a single step: the cycle counter is a multiple of the
    /// snapshot interval.
    pub fn snapshot_due(&self) -> (b: bool)
        requires
            self.snapshot_interval > 0,
        ensures
            b == (self.cpu.cycle % self.snapshot_interval == 0),
    {
        self.cpu.cycle % self.snapshot_interval == 0
    }

    /// Whether the program counter is at a breakpoint.
    pub fn at_breakpoint(&self) -> (b: bool)
        ensures
            b == self.breakpoints@.contains(self.cpu.pc),
    {
        contains_addr(&self.breakpoints, self.cpu.pc)
    }

    /// Single-steps the interpreter: `Halted` when the hart halted, `Break` when the step
    /// returned the address of a breakpoint.
    pub fn step(&mut self) -> (ev: Option<Event>)
        requires
            old(self).wf(),
        ensures
            final(self).cpu@.halt is None ==> final(self).wf(),
            final(self).breakpoints == old(self).breakpoints,
            final(self).snapshot_interval == old(self).snapshot_interval,
            (ev, final(self).cpu@, final(self).bus@) == step_outcome(
                old(self).cpu@,
                old(self).bus@,
                old(self).breakpoints@,
            ),
    {
        let pc = self.cpu.step_run(&mut self.bus);
        if self.cpu.halt.is_some() {
            return Some(Event::Halted);
        }
        if contains_addr(&self.breakpoints, pc) {
            return Some(Event::Break);
        }
        None
    }

    /// Runs `block` after ending it at the first breakpoint inside it, if any (the end only
    /// marks the block: all its instructions run).
    fn run_block_with_breakpoints(&mut self, block: &mut BasicBlock) -> (count: u64)
        requires
            old(self).cpu@.runnable(),
            old(self).bus@.wf(),
            block_wf(old(block)@),
        ensures
            final(self).cpu@.runnable(),
            final(self).bus@.wf(),
            (final(self).cpu@, final(self).bus@, count) == run_block_spec(
                old(self).cpu@,
                old(self).bus@,
                old(block)@,
            ),
            final(block)@ == (BlockState {
                end_pc: match first_break_in(
                    old(self).breakpoints@,
                    old(block)@.start_pc,
                    old(block)@.end_pc,
                    0,
                ) {
                    Some(b) => b,
                    None => old(block)@.end_pc,
                },
                ..old(block)@
            }),
            final(self).breakpoints == old(self).breakpoints,
            final(self).snapshot_interval == old(self).snapshot_interval,
            final(self).cpu@.halt is None ==> final(self).cpu@.cycle >= old(self).cpu@.cycle,
    {
        match first_break(&self.breakpoints, block.start_pc, block.end_pc) {
            Some(b) => {
                block.end_pc = b;
            },
            None => {},
        }
        proof {
            lemma_run_from_cycle(
                CpuState { pc: block@.start_pc, ..self.cpu@ },
                self.bus@,
                block@.instrs,
                0,
                0,
            );
        }
        self.cpu.run_block(&mut self.bus, block)
    }

    /// The block part of a round: builds and runs the block at the program counter (or takes
    /// the exception of its first fetch) and counts the retired instructions. Returns whether
    /// a snapshot is due.
    fn run_block_round(&mut self, counters: &mut RunCounters) -> (snap: bool)
        requires
            old(self).cpu@.runnable(),
            old(self).cpu@.halt is None,
            old(self).bus@.wf(),
            old(self).snapshot_interval > 0,
        ensures
            final(self).cpu@.halt is None ==> final(self).wf(),
            final(self).breakpoints == old(self).breakpoints,
            final(self).snapshot_interval == old(self).snapshot_interval,
            final(counters).round_done == old(counters).round_done,
            (
                snap,
                final(self).cpu@,
                final(self).bus@,
                final(counters).since_snapshot,
                final(counters).last_block,
            ) == block_round_spec(
                old(self).cpu@,
                old(self).bus@,
                old(self).snapshot_interval,
                old(counters).since_snapshot,
                old(counters).last_block,
            ),
            final(self).cpu@.halt is None ==> final(self).cpu@.cycle >= old(self).cpu@.cycle,
    {
        let ghost c1 = self.cpu@;
        let ghost b2 = self.bus@;
        proof {
            lemma_scan_cycle(c1, b2, c1.pc, choose|n: nat| settles(c1, b2, n));
        }
        let last = match self.cpu.build_basic_block(&mut self.bus) {
            Ok(block) => {
                if self.cpu.halt.is_some() {
                    return false;
                }
                proof {
                    lemma_run_from_cycle(
                        CpuState { pc: block@.start_pc, ..self.cpu@ },
                        self.bus@,
                        block@.instrs,
                        0,
                        0,
                    );
                }
                let mut block = block;
                self.run_block_with_breakpoints(&mut block)
            },
            Err(exception) => {
                if self.cpu.halt.is_some() {
                    return false;
                }
                exception.take_trap(&mut self.cpu);
                self.cpu.pc = self.cpu.pc.wrapping_add(4);
                counters.last_block
            },
        };
        counters.last_block = last;
        if self.cpu.halt.is_some() {
            return false;
        }
        let since = match counters.since_snapshot.checked_add(last) {
            Some(s) => s,
            None => {
                self.cpu.halt = Some(Halt::Overflow);
                return false;
            },
        };
        if since > self.snapshot_interval {
            counters.since_snapshot = since % self.snapshot_interval;
            true
        } else {
            counters.since_snapshot = since;
            false
        }
    }

    /// One round of the continuous run: polls interrupts, lets the virtio device serve its
    /// request, then builds and runs the block at the program counter (or takes the exception
    /// of its first fetch) and counts the retired instructions. Returns whether a snapshot is
    /// due.
    pub fn run_round(&mut self, counters: &mut RunCounters) -> (snap: bool)
        requires
            old(self).wf(),
        ensures
            final(self).cpu@.halt is None ==> final(self).wf(),
            final(self).breakpoints == old(self).breakpoints,
            final(self).snapshot_interval == old(self).snapshot_interval,
            final(counters).round_done == old(counters).round_done,
            ({
                let (s, c, b, since, last) = round_spec(
                    old(self).cpu@,
                    old(self).bus@,
                    old(self).snapshot_interval,
                    old(counters).since_snapshot,
                    old(counters).last_block,
                );
                &&& snap == s
                &&& final(self).cpu@ == c
                &&& final(self).bus@ == b
                &&& final(counters).since_snapshot == since
                &&& final(counters).last_block == last
            }),
            final(self).cpu@.halt is None ==> final(self).cpu@.cycle > old(self).cpu@.cycle,
    {
        let ghost c0 = self.cpu@;
        let ghost b0 = self.bus@;
        self.cpu.trap_interrupt(&mut self.bus);
        if self.cpu.halt.is_some() {
            return false;
        }
        let ghost b1 = self.bus@;
        match self.bus.process_virtio() {
            Ok(_) => {},
            Err(_) => {
                self.cpu.halt = Some(Halt::DiskAccess);
                return false;
            },
        }
        assert(virtio_spec(b1) == Some(self.bus@));
        self.run_block_round(counters)
    }

    /// Runs until the cycle counter reaches `iteration`: in step mode a single step, in
    /// continuous mode round after round. A continuous run stops at a breakpoint, when the
    /// hart halts, and after a round at which a snapshot is due (`SnapshotDue`; running again
    /// with the same counters resumes it).
    pub fn run_for(&mut self, iteration: u64, counters: &mut RunCounters) -> (ev: RunEvent)
        requires
            old(self).wf(),
        ensures
            final(self).cpu@.halt is None ==> final(self).wf(),
            final(self).breakpoints == old(self).breakpoints,
            final(self).snapshot_interval == old(self).snapshot_interval,
            old(self).exec_mode is Step ==> {
                let (e, c, b) = step_outcome(
                    old(self).cpu@,
                    old(self).bus@,
                    old(self).breakpoints@,
                );
                &&& ev == RunEvent::Event(
                    match e {
                        Some(e) => e,
                        None => Event::DoneStep,
                    },
                )
                &&& final(self).cpu@ == c
                &&& final(self).bus@ == b
                &&& *final(counters) == *old(counters)
            },
            old(self).exec_mode is Continue ==> exists|k: nat|
                {
                    &&& #[trigger] run_for_spec(
                        old(self).cpu@,
                        old(self).bus@,
                        old(self).breakpoints@,
                        old(self).snapshot_interval,
                        iteration,
                        old(counters).since_snapshot,
                        old(counters).last_block,
                        old(counters).round_done,
                        k,
                    ) matches Some((e, c, b, since, last, done))
                    &&& ev == e
                    &&& final(self).cpu@ == c
                    &&& final(self).bus@ == b
                    &&& final(counters).since_snapshot == since
                    &&& final(counters).last_block == last
                    &&& final(counters).round_done == done
                },
    {
        match self.exec_mode {
            ExecMode::Step => {
                let e = self.step();
                match e {
                    Some(e) => RunEvent::Event(e),
                    None => RunEvent::Event(Event::DoneStep),
                }
            },
            ExecMode::Continue => {
                let ghost c0 = self.cpu@;
                let ghost b0 = self.bus@;
                let ghost bps = self.breakpoints@;
                let ghost interval = self.snapshot_interval;
                let ghost s0 = counters.since_snapshot;
                let ghost l0 = counters.last_block;
                let ghost d0 = counters.round_done;
                let ghost mut rounds: nat = 0;
                loop
                    invariant
                        self.wf(),
                        self.breakpoints@ == bps,
                        self.breakpoints == old(self).breakpoints,
                        self.snapshot_interval == interval,
                        old(self).snapshot_interval == interval,
                        old(self).exec_mode is Continue,
                        c0 == old(self).cpu@,
                        b0 == old(self).bus@,
                        bps == old(self).breakpoints@,
                        s0 == old(counters).since_snapshot,
                        l0 == old(counters).last_block,
                        d0 == old(counters).round_done,
                        forall|k: nat|
                            #[trigger] run_for_spec(
                                self.cpu@,
                                self.bus@,
                                bps,
                                interval,
                                iteration,
                                counters.since_snapshot,
                                counters.last_block,
                                counters.round_done,
                                k,
                            ) == run_for_spec(
                                c0,
                                b0,
                                bps,
                                interval,
                                iteration,
                                s0,
                                l0,
                                d0,
                                k + rounds,
                            ),
                    decreases u64::MAX - self.cpu.cycle,
                {
                    proof {
                        assert(run_for_spec(
                            self.cpu@,
                            self.bus@,
                            bps,
                            interval,
                            iteration,
                            counters.since_snapshot,
                            counters.last_block,
                            counters.round_done,
                            1,
                        ) == run_for_spec(c0, b0, bps, interval, iteration, s0, l0, d0, 1 + rounds));
                    }
                    let ghost ts = counters.since_snapshot;
                    let ghost tl = counters.last_block;
                    let ghost td = counters.round_done;
                    let ghost tc = self.cpu@;
                    let ghost tb = self.bus@;
                    if counters.round_done {
                        counters.round_done = false;
                        if self.at_breakpoint() {
                            return RunEvent::Event(Event::Break);
                        }
                    }
                    if self.cpu.cycle >= iteration {
                        return RunEvent::Event(Event::DoneStep);
                    }
                    let ghost cb = self.cpu@;
                    let ghost bb = self.bus@;
                    let snap = self.run_round(counters);
                    if self.cpu.halt.is_some() {
                        return RunEvent::Event(Event::Halted);
                    }
                    counters.round_done = true;
                    if snap {
                        return RunEvent::SnapshotDue;
                    }
                    proof {
                        assert forall|k: nat|
                            #[trigger] run_for_spec(
                                self.cpu@,
                                self.bus@,
                                bps,
                                interval,
                                iteration,
                                counters.since_snapshot,
                                counters.last_block,
                                counters.round_done,
                                k,
                            ) == run_for_spec(
                                c0,
                                b0,
                                bps,
                                interval,
                                iteration,
                                s0,
                                l0,
                                d0,
                                k + (rounds + 1),
                            ) by {
                            lemma_run_for_round(tc, tb, bps, interval, iteration, ts, tl, td, k);
                            assert(k + (rounds + 1) == (k + 1) + rounds);
                            assert(run_for_spec(tc, tb, bps, interval, iteration, ts, tl, td, k + 1)
                                == run_for_spec(c0, b0, bps, interval, iteration, s0, l0, d0, (k + 1)
                                + rounds));
                        }
                        rounds = rounds + 1;
                    }
                }
            },
        }
    }

    /// Sets the program counter to the program's entry point.
    pub fn set_entry_point(&mut self, entry_addr: u64)
        ensures
            final(self).cpu@ == (CpuState { pc: entry_addr, ..old(self).cpu@ }),
            final(self).bus@ == old(self).bus@,
            final(self).breakpoints == old(self).breakpoints,
            final(self).snapshot_interval == old(self).snapshot_interval,
    {
        self.cpu.pc = entry_addr;
    }

    /// Appends `disk_image` to the virtio device's disk.
    pub fn set_disk_image(&mut self, disk_image: Vec<u8>)
        requires
            old(self).bus.virtio is Some,
        ensures
            final(self).cpu@ == old(self).cpu@,
            final(self).bus@ == (BusState {
                virtio: Some(
                    VirtioState {
                        disk: old(self).bus@.virtio->0.disk + disk_image@,
                        ..old(self).bus@.virtio->0
                    },
                ),
                ..old(self).bus@
            }),
            final(self).breakpoints == old(self).breakpoints,
            final(self).snapshot_interval == old(self).snapshot_interval,
    {
        let mut virtio = self.bus.virtio.take();
        match &mut virtio {
            Some(v) => v.set_disk_image(disk_image),
            None => {},
        }
        self.bus.virtio = virtio;
        assert(self.bus@ =~= (BusState {
            virtio: Some(
                VirtioState {
                    disk: old(self).bus@.virtio->0.disk + disk_image@,
                    ..old(self).bus@.virtio->0
                },
            ),
            ..old(self).bus@
        }));
    }

    /// The saved form of this emulator.
    pub fn to_snapshot(&self) -> (s: EmuSnapshot)
        ensures
            snapshot_of(s, self.cpu@, self.bus@),
    {
        let virtio = match &self.bus.virtio {
            Some(v) => v.to_snapshot(),
            None => VirtioSnapshot {
                start_addr: VIRTIO_BASE,
                id: 0,
                driver_features: 0,
                page_size: 0,
                queue_sel: 0,
                queue_num: 0,
                queue_pfn: 0,
                queue_notify: QUEUE_IDLE,
                desc_addr: 0,
                avail_addr: 0,
                used_addr: 0,
                status: 0,
                disk: Vec::new(),
            },
        };
        let dram = Dram { dram: self.bus.dram.dram.clone(), dram_base: self.bus.dram.dram_base };
        EmuSnapshot {
            cpu: self.cpu.to_snapshot(),
            dram,
            uart: self.bus.uart.to_snapshot(),
            plic: self.bus.plic.to_snapshot(),
            virtio,
        }
    }

    /// The emulator saved in `snapshot`, running block by block with no breakpoints and a
    /// snapshot every 100,000,000 instructions.
    pub fn from_snapshot(snapshot: EmuSnapshot) -> (e: Emu)
        requires
            snapshot.valid(),
        ensures
            e.wf(),
            e.cpu@ == snapshot_cpu(snapshot),
            e.bus@ == snapshot_bus(snapshot),
            e.breakpoints@ == Seq::<u64>::empty(),
            e.exec_mode is Continue,
            e.snapshot_interval == 100_000_000,
    {
        let ghost s = snapshot;
        let EmuSnapshot { cpu, dram, uart, plic, virtio } = snapshot;
        let mut bus = Bus::from_snapshot(dram, uart, plic);
        bus.virtio = Some(Virtio::from_snapshot(virtio));
        let cpu = Cpu::from_snapshot(cpu);
        assert(cpu@ =~= snapshot_cpu(s));
        assert(bus@ =~= snapshot_bus(s));
        Emu {
            breakpoints: Vec::new(),
            exec_mode: ExecMode::Continue,
            cpu,
            bus,
            snapshot_interval: 100_000_000,
        }
    }

    /// Reads `len` bytes of guest memory from `start_addr` for the debugger.
    pub fn read_addrs(&mut self, start_addr: u64, len: usize) -> (r: Result<Vec<u8>, ()>)
        requires
            old(self).bus@.wf(),
        ensures
            final(self).bus@.wf(),
            final(self).cpu@ == old(self).cpu@,
            final(self).breakpoints == old(self).breakpoints,
            final(self).snapshot_interval == old(self).snapshot_interval,
            (match r {
                Ok(v) => Ok(v@),
                Err(e) => Err(e),
            }, final(self).bus@) == debug_read_spec(old(self).bus@, start_addr, len as nat),
    {
        let mut data: Vec<u8> = Vec::new();
        let mut read_size: usize = 0;
        let mut addr = start_addr;
        while read_size < len
            invariant
                read_size <= len,
                self.bus@.wf(),
                self.cpu@ == old(self).cpu@,
                self.breakpoints == old(self).breakpoints,
                self.snapshot_interval == old(self).snapshot_interval,
                data@.len() == read_size,
                debug_read_spec(old(self).bus@, start_addr, len as nat) == match debug_read_spec(
                    self.bus@,
                    addr,
                    (len - read_size) as nat,
                ) {
                    (Ok(t), b) => (Ok(data@ + t), b),
                    (Err(e), b) => (Err::<Seq<u8>, ()>(e), b),
                },
            decreases len - read_size,
        {
            let remaining = len - read_size;
            let (size, k): (u64, usize) = if remaining >= 8 { (64, 8) } else { (8, 1) };
            if !self.bus.is_access_defined(addr, size) {
                return Err(());
            }
            let ghost b0 = self.bus@;
            let ghost d0 = data@;
            let v = match self.bus.load(addr, size) {
                Ok(v) => v,
                Err(_) => {
                    return Err(());
                },
            };
            if remaining > k && addr > u64::MAX - k as u64 {
                return Err(());
            }
            let mut j: usize = 0;
            while j < k
                invariant
                    j <= k,
                    k == 1 || k == 8,
                    data@ == d0 + low_bytes(v, j as nat),
                decreases k - j,
            {
                data.push(((v >> (8 * j as u64)) & 0xff) as u8);
                assert(data@ =~= d0 + low_bytes(v, (j + 1) as nat));
                j = j + 1;
            }
            proof {
                let t = debug_read_spec(self.bus@, (addr + k) as u64, (remaining - k) as nat);
                assert(debug_read_spec(b0, addr, remaining as nat) == match t {
                    (Ok(t), b) => (Ok(low_bytes(v, k as nat) + t), b),
                    (Err(_), b) => (Err::<Seq<u8>, ()>(()), b),
                });
                if let (Ok(tt), _) = t {
                    assert(d0 + (low_bytes(v, k as nat) + tt) =~= data@ + tt);
                }
            }
            read_size = read_size + k;
            if read_size < len {
                addr = addr + k as u64;
            } else {
                addr = addr.wrapping_add(k as u64);
            }
        }
        proof {
            assert(data@ + Seq::<u8>::empty() =~= data@);
        }
        Ok(data)
    }

    /// Writes `data` to guest memory at `start_addr` for the debugger.
    pub fn write_addrs(&mut self, start_addr: u64, data: &[u8]) -> (r: Result<(), ()>)
        requires
            old(self).bus@.wf(),
        ensures
            final(self).bus@.wf(),
            final(self).cpu@ == old(self).cpu@,
            final(self).breakpoints == old(self).breakpoints,
            final(self).snapshot_interval == old(self).snapshot_interval,
            (r, final(self).bus@) == debug_write_spec(old(self).bus@, start_addr, data@),
    {
        let mut wrote_size: usize = 0;
        let mut addr = start_addr;
        let len = data.len();
        assert(data@.subrange(0, len as int) =~= data@);
        while wrote_size < len
            invariant
                wrote_size <= len,
                len == data@.len(),
                self.bus@.wf(),
                self.cpu@ == old(self).cpu@,
                self.breakpoints == old(self).breakpoints,
                self.snapshot_interval == old(self).snapshot_interval,
                debug_write_spec(old(self).bus@, start_addr, data@) == debug_write_spec(
                    self.bus@,
                    addr,
                    data@.subrange(wrote_size as int, len as int),
                ),
            decreases len - wrote_size,
        {
            let ghost rest = data@.subrange(wrote_size as int, len as int);
            let remaining = len - wrote_size;
            let (size, k, value): (u64, usize, u64) = if remaining >= 8 {
                let word = u8_slice_to_u64(&data[wrote_size..wrote_size + 8]);
                proof {
                    assert(data@.subrange(wrote_size as int, wrote_size + 8) =~= rest.subrange(0, 8));
                    lemma_le_prefix(rest, 8);
                }
                (64, 8, word)
            } else {
                (8, 1, data[wrote_size] as u64)
            };
            assert(value == if k == 8 {
                le_value(rest, 0, 8) as u64
            } else {
                rest[0] as u64
            });
            if !self.bus.is_access_defined(addr, size) {
                return Err(());
            }
            let ghost b0 = self.bus@;
            match self.bus.store(addr, size, value) {
                Ok(_) => {},
                Err(_) => {
                    return Err(());
                },
            }
            if remaining > k && addr > u64::MAX - k as u64 {
                return Err(());
            }
            proof {
                assert(rest.subrange(k as int, rest.len() as int) =~= data@.subrange(
                    wrote_size + k,
                    len as int,
                ));
                assert(debug_write_spec(b0, addr, rest) == debug_write_spec(
                    self.bus@,
                    (addr + k) as u64,
                    rest.subrange(k as int, rest.len() as int),
                ));
            }
            wrote_size = wrote_size + k;
            if wrote_size < len {
                addr = addr + k as u64;
            } else {
                addr = addr.wrapping_add(k as u64);
            }
        }
        Ok(())
    }
}

} // verus!
