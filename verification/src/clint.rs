use crate::interrupt::Exception;
use vstd::prelude::*;

verus! {

/// Clock frequency of the timer (10 MHz).
pub const FREQUENCY: u64 = 10_000_000;
/// Offset of `mtimecmp` in the CLINT.
pub const MTIMECMP: u64 = 0x4000;
/// Offset of `mtime` in the CLINT.
pub const MTIME: u64 = 0xBFF8;

/// Index of `mtime` in the register bank.
pub const MTIME_INDEX: usize = 0x17ff;

/// The register that holds byte `offset` of the window.
fn register_index(offset: u64) -> (i: usize)
    requires
        offset / 8 <= usize::MAX,
    ensures
        i == offset / 8,
{
    (offset / 8) as usize
}

/// The core-local interruptor: a bank of 64-bit registers. Reads return zero.
#[derive(Clone)]
pub struct Clint {
    pub start_addr: u64,
    pub size: u64,
    pub registers: Vec<u64>,
}

/// The state of a CLINT.
#[verifier::ext_equal]
pub struct ClintState {
    pub start_addr: u64,
    pub size: u64,
    pub registers: Seq<u64>,
}

impl View for Clint {
    type V = ClintState;

    open spec fn view(&self) -> ClintState {
        ClintState { start_addr: self.start_addr, size: self.size, registers: self.registers@ }
    }
}

impl ClintState {
    /// The register bank covers the whole window (which reaches past `mtime` and does not
    /// wrap around).
    pub open spec fn wf(self) -> bool {
        &&& self.start_addr + self.size <= u64::MAX
        &&& self.size % 8 == 0
        &&& MTIME < self.size
        &&& self.size / 8 <= usize::MAX
        &&& self.registers.len() == self.size / 8
    }

    /// Whether `addr` falls in the CLINT window.
    pub open spec fn accessible(self, addr: u64) -> bool {
        self.start_addr <= addr < self.start_addr + self.size
    }

    /// The current value of `mtime`.
    pub open spec fn mtime(self) -> u64 {
        self.registers[MTIME_INDEX as int]
    }

    /// The CLINT after a store of `value` at `addr`.
    pub open spec fn stored(self, addr: u64, value: u64) -> ClintState {
        ClintState {
            registers: self.registers.update((addr - self.start_addr) / 8, value),
            ..self
        }
    }
}

/// Milliseconds until the counter at `now` reaches `target` at `FREQUENCY` ticks a second;
/// `None` when `target` lies in the past or the conversion overflows.
pub open spec fn timer_wait_ms(now: u64, target: u64) -> Option<u64> {
    if target >= now && (target - now) * 1000 <= u64::MAX {
        Some(((target - now) * 1000 / FREQUENCY as int) as u64)
    } else {
        None
    }
}

impl Clint {
    /// A CLINT of `size` bytes at `start_addr`, all registers zero.
    pub fn new(start_addr: u64, size: u64) -> (c: Clint)
        requires
            start_addr + size <= u64::MAX,
            size % 8 == 0,
            MTIME < size,
            size / 8 <= usize::MAX,
        ensures
            c@.wf(),
            c@.start_addr == start_addr,
            c@.size == size,
            c@.registers == Seq::new((size / 8) as nat, |i: int| 0u64),
    {
        let registers = vec![0u64; (size / 8) as usize];
        let c = Clint { start_addr, size, registers };
        assert(c@.registers =~= Seq::new((size / 8) as nat, |i: int| 0u64));
        c
    }

    /// Whether `addr` falls in the CLINT window.
    pub fn is_accessible(&self, addr: u64) -> (b: bool)
        requires
            self@.wf(),
        ensures
            b == self@.accessible(addr),
    {
        (addr >= self.start_addr) && (addr < self.start_addr + self.size)
    }

    /// Reads always return zero.
    pub fn load(&self, _addr: u64, _size: u64) -> (r: Result<u64, Exception>)
        ensures
            r == Ok::<u64, Exception>(0),
    {
        Ok(0x0)
    }

    /// Stores `value` into the register that holds `addr`; the store always succeeds.
    pub fn store(&mut self, addr: u64, _size: u64, value: u64) -> (r: Result<(), Exception>)
        requires
            old(self)@.wf(),
            old(self)@.accessible(addr),
        ensures
            r == Ok::<(), Exception>(()),
            final(self)@ == old(self)@.stored(addr, value),
    {
        let offset = addr - self.start_addr;
        self.registers.set(register_index(offset), value);
        if offset == MTIMECMP {
            let _wait_ms = self.set_mtimecmp(value);
        }
        assert(self@ =~= old(self)@.stored(addr, value));
        Ok(())
    }

    /// Milliseconds until `mtime` reaches the new `mtimecmp` value, or `None` where the
    /// difference is negative or the conversion overflows.
    fn set_mtimecmp(&self, value: u64) -> (w: Option<u64>)
        requires
            self@.wf(),
            MTIME_INDEX < self@.registers.len(),
        ensures
            w == timer_wait_ms(self@.mtime(), value),
    {
        let current_counter = self.registers[MTIME_INDEX];
        if value < current_counter {
            return None;
        }
        match (value - current_counter).checked_mul(1000) {
            Some(scaled) => Some(scaled / FREQUENCY),
            None => None,
        }
    }
}

} // verus!
