use vstd::prelude::*;

verus! {

pub const SSTATUS: usize = 0x100;
pub const SIE: usize = 0x104;
pub const STVEC: usize = 0x105;
pub const SEPC: usize = 0x141;
pub const SCAUSE: usize = 0x142;
pub const STVAL: usize = 0x143;
pub const SIP: usize = 0x144;
/// Supervisor timer compare register of the Sstc extension.
pub const STIMECMP: usize = 0x14D;

pub const SATP: usize = 0x180;

pub const MSTATUS: usize = 0x300;
pub const MEDELEG: usize = 0x302;
pub const MIDELEG: usize = 0x303;
pub const MIE: usize = 0x304;
pub const MTVEC: usize = 0x305;
pub const MEPC: usize = 0x341;
pub const MCAUSE: usize = 0x342;
pub const MTVAL: usize = 0x343;
pub const MIP: usize = 0x344;

pub const TIME: usize = 0xc01;

/// Number of CSR slots.
pub const NUM_CSRS: usize = 4096;

pub const BIT_SXL: u64 = 34;
pub const BIT_TSR: u64 = 22;
pub const BIT_TW: u64 = 21;
pub const BIT_TVM: u64 = 20;
pub const BIT_MPRV: u64 = 17;
pub const BIT_MPP: u64 = 11;
pub const BIT_MPIE: u64 = 7;
pub const BIT_MIE: u64 = 3;
pub const BIT_SPP: u64 = 8;
pub const BIT_SPIE: u64 = 5;
pub const BIT_SIE: u64 = 1;

/// `0b11 << BIT_SXL`
pub const MASK_SXL: u64 = 0xc_0000_0000;
/// `1 << BIT_TSR`
pub const MASK_TSR: u64 = 0x40_0000;
/// `1 << BIT_TW`
pub const MASK_TW: u64 = 0x20_0000;
/// `1 << BIT_TVM`
pub const MASK_TVM: u64 = 0x10_0000;
/// `0b11 << BIT_SPP`
pub const MASK_SPP: u64 = 0x300;
/// `1 << BIT_SPIE`
pub const MASK_SPIE: u64 = 0x20;
/// `1 << BIT_SIE`
pub const MASK_SIE: u64 = 0x2;
/// `1 << BIT_MPRV`
pub const MASK_MPRV: u64 = 0x2_0000;
/// `0b11 << BIT_MPP`
pub const MASK_MPP: u64 = 0x1800;
/// `1 << BIT_MPIE`
pub const MASK_MPIE: u64 = 0x80;
/// `1 << BIT_MIE`
pub const MASK_MIE: u64 = 0x8;

/// The bits of `mstatus` that `sstatus` shows: all but SXL, TSR, TW, TVM, MPRV, MPP, MPIE, MIE.
pub const SSTATUS_MASK: u64 = 0xffff_fff3_ff8d_e777;

/// Frequency of the `time` counter (10 MHz).
pub const TIMER_FREQ: u64 = 10_000_000;

/// Frequency at which instructions retire (200 MHz).
pub const CPU_FREQUENCY: u64 = 200_000_000;

/// Retired instructions per tick of the `time` counter (`CPU_FREQUENCY / TIMER_FREQ`).
pub const CYCLES_PER_TICK: u64 = 20;

/// The `time` counter after `cycle` retired instructions: `TIMER_FREQ` ticks per
/// `CPU_FREQUENCY` instructions.
pub open spec fn time_of_cycle(cycle: u64) -> u64 {
    cycle / CYCLES_PER_TICK
}

/// The value a read of CSR `addr` returns, given the CSR file `c`.
pub open spec fn csr_read(c: Seq<u64>, addr: int, cycle: u64) -> u64 {
    if addr == SSTATUS {
        c[MSTATUS as int] & SSTATUS_MASK
    } else if addr == TIME {
        time_of_cycle(cycle)
    } else {
        c[addr]
    }
}

/// The CSR file `c` after writing `val` to CSR `addr`.
pub open spec fn csr_write(c: Seq<u64>, addr: int, val: u64) -> Seq<u64> {
    if addr == SSTATUS {
        c.update(MSTATUS as int, val & SSTATUS_MASK)
    } else {
        c.update(addr, val)
    }
}

/// `current` with the field selected by `mask` replaced by `val` shifted to `bit`.
pub open spec fn field_set(current: u64, val: u64, mask: u64, bit: u64) -> u64 {
    (current & !mask) | ((val << bit) & mask)
}

/// The field of `status` selected by `mask`, shifted down by `bit`.
pub open spec fn field_get(status: u64, mask: u64, bit: u64) -> u64 {
    (status & mask) >> bit
}

/// The saved CSR file.
pub struct CsrSnapshot {
    pub csr: [u64; 4096],
}

/// The control and status registers of the hart.
pub struct Csr {
    pub csr: [u64; 4096],
}

impl View for Csr {
    type V = Seq<u64>;

    open spec fn view(&self) -> Seq<u64> {
        self.csr@
    }
}

impl Csr {
    /// All CSRs zero.
    pub fn new() -> (c: Csr)
        ensures
            c@ == Seq::new(4096, |i: int| 0u64),
    {
        let c = Csr { csr: [0u64; 4096] };
        assert(c@ =~= Seq::new(4096, |i: int| 0u64));
        c
    }

    /// A copy of the CSR file.
    pub fn to_snapshot(&self) -> (s: CsrSnapshot)
        ensures
            s.csr@ == self@,
    {
        CsrSnapshot { csr: self.csr }
    }

    /// The CSR file saved in `snapshot`.
    pub fn from_snapshot(snapshot: CsrSnapshot) -> (c: Csr)
        ensures
            c@ == snapshot.csr@,
    {
        Csr { csr: snapshot.csr }
    }

    /// Reads CSR `addr`: `sstatus` is the restricted view of `mstatus`, `time` counts
    /// `TIMER_FREQ` ticks per `CPU_FREQUENCY` retired instructions.
    pub fn load_csrs(&self, addr: usize, cycle: u64) -> (v: u64)
        requires
            addr < NUM_CSRS,
        ensures
            v == csr_read(self@, addr as int, cycle),
    {
        match addr {
            SSTATUS => self.csr[MSTATUS] & SSTATUS_MASK,
            TIME => cycle / CYCLES_PER_TICK,
            _ => self.csr[addr],
        }
    }

    /// Writes CSR `addr`: a write to `sstatus` replaces `mstatus` by the value restricted to
    /// the supervisor-visible bits.
    pub fn store_csrs(&mut self, addr: usize, val: u64)
        requires
            addr < NUM_CSRS,
        ensures
            final(self)@ == csr_write(old(self)@, addr as int, val),
    {
        match addr {
            SSTATUS => {
                self.csr[MSTATUS] = val & SSTATUS_MASK;
            },
            STIMECMP => {
                self.csr[STIMECMP] = val;
                self.set_timer_interrupt(val);
            },
            _ => {
                self.csr[addr] = val;
            },
        }
    }

    /// Replaces the `mstatus` field selected by `mask` with `val` shifted to `bit`.
    pub fn set_mstatus_bit(&mut self, val: u64, mask: u64, bit: u64)
        requires
            bit < 64,
        ensures
            final(self)@ == old(self)@.update(
                MSTATUS as int,
                field_set(old(self)@[MSTATUS as int], val, mask, bit),
            ),
    {
        let mut current = self.csr[MSTATUS];
        current = current & !mask;
        current = current | ((val << bit) & mask);
        self.store_csrs(MSTATUS, current);
    }

    /// The `mstatus` field selected by `mask`, shifted down by `bit`.
    pub fn get_mstatus_bit(&self, mask: u64, bit: u64) -> (v: u64)
        requires
            bit < 64,
        ensures
            v == field_get(self@[MSTATUS as int], mask, bit),
    {
        let status = self.csr[MSTATUS];
        (status & mask) >> bit
    }

    /// Replaces the `sstatus` field selected by `mask` with `val` shifted to `bit`; the new
    /// `mstatus` keeps only the supervisor-visible bits.
    pub fn set_sstatus_bit(&mut self, val: u64, mask: u64, bit: u64)
        requires
            bit < 64,
        ensures
            final(self)@ == old(self)@.update(
                MSTATUS as int,
                field_set(old(self)@[MSTATUS as int] & SSTATUS_MASK, val, mask, bit)
                    & SSTATUS_MASK,
            ),
    {
        let mut current = self.csr[MSTATUS] & SSTATUS_MASK;
        current = current & !mask;
        current = current | ((val << bit) & mask);
        self.store_csrs(SSTATUS, current);
    }

    /// The `sstatus` field selected by `mask`, shifted down by `bit`.
    pub fn get_sstatus_bit(&self, mask: u64, bit: u64) -> (v: u64)
        requires
            bit < 64,
        ensures
            v == field_get(self@[MSTATUS as int] & SSTATUS_MASK, mask, bit),
    {
        let status = self.csr[MSTATUS] & SSTATUS_MASK;
        (status & mask) >> bit
    }

    /// Arming the supervisor timer has no further effect: the timer interrupt is raised by
    /// comparing `stimecmp` with the cycle-derived counter when interrupts are polled.
    fn set_timer_interrupt(&self, _comp_value: u64) {
    }
}

/// Reading back a field just written gives the written value cut to the field.
pub proof fn lemma_field_roundtrip(current: u64, val: u64, mask: u64, bit: u64)
    requires
        bit < 64,
    ensures
        field_get(field_set(current, val, mask, bit), mask, bit) == ((val << bit) & mask) >> bit,
        field_set(current, val, mask, bit) & !mask == current & !mask,
{
    assert(field_get(field_set(current, val, mask, bit), mask, bit) == ((val << bit) & mask)
        >> bit) by (bit_vector);
    assert(field_set(current, val, mask, bit) & !mask == current & !mask) by (bit_vector);
}

/// A value written to an ordinary CSR (not `sstatus`, not `time`) is read back unchanged,
/// and no other CSR changes.
pub proof fn lemma_csr_write_read(c: Seq<u64>, addr: int, other: int, val: u64, cycle: u64)
    requires
        c.len() == NUM_CSRS,
        0 <= addr < NUM_CSRS,
        0 <= other < NUM_CSRS,
        addr != SSTATUS,
        addr != TIME,
    ensures
        csr_read(csr_write(c, addr, val), addr, cycle) == val,
        other != addr && other != SSTATUS && other != TIME ==> csr_read(
            csr_write(c, addr, val),
            other,
            cycle,
        ) == c[other],
{
}

/// `sstatus` shows exactly the supervisor-visible bits of `mstatus`, and writing `sstatus`
/// reads back as the written value restricted to those bits.
pub proof fn lemma_sstatus_view(c: Seq<u64>, val: u64, cycle: u64)
    requires
        c.len() == NUM_CSRS,
    ensures
        csr_read(c, SSTATUS as int, cycle) == csr_read(c, MSTATUS as int, cycle) & SSTATUS_MASK,
        csr_read(csr_write(c, SSTATUS as int, val), SSTATUS as int, cycle) == val & SSTATUS_MASK,
{
    assert((val & SSTATUS_MASK) & SSTATUS_MASK == val & SSTATUS_MASK) by (bit_vector);
}

} // verus!
