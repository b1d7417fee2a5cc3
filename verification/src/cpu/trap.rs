use super::{Cpu, CpuState, Halt, M_MODE, S_MODE, U_MODE};
use crate::csr::{
    field_get, field_set, time_of_cycle, BIT_MIE, BIT_MPIE, BIT_MPP, BIT_SIE, BIT_SPIE, BIT_SPP,
    CYCLES_PER_TICK, MASK_MIE, MASK_MPIE, MASK_MPP, MASK_SIE, MASK_SPIE, MASK_SPP,
    MCAUSE, MEDELEG, MEPC, MIDELEG, MIE, MIP, MSTATUS, MTVAL, MTVEC, SCAUSE, SEPC, SIE, SIP,
    SSTATUS, SSTATUS_MASK, STIMECMP, STVAL, STVEC,
};
use crate::interrupt::{
    exception_code, exception_tval, interrupt_at, interrupt_bit_code, interrupt_by_index, interrupt_index,
    interrupt_code, Exception, Interrupt, INTERRUPT_BIT,
};
use vstd::prelude::*;

verus! {

/// The hart after entering a trap handler in mode `target` with cause `cause`. `tval` is
/// written to `mtval`/`stval` when present; `s_back` says whether a supervisor vector is
/// stepped back by one instruction (the step loop adds 4 after the trap). A vector whose mode
/// field is neither direct (0) nor vectored (1) halts the hart.
pub open spec fn trap_entry(c: CpuState, target: u64, cause: u64, tval: Option<u64>, s_back: bool) -> CpuState {
    if target == M_MODE {
        let csr1 = c.csr.update(MEPC as int, c.pc).update(MCAUSE as int, cause);
        let ms1 = field_set(csr1[MSTATUS as int], c.mode, MASK_MPP, BIT_MPP);
        let ms2 = field_set(ms1, if MASK_MIE & ms1 > 0 { 1 } else { 0 }, MASK_MPIE, BIT_MPIE);
        let ms3 = field_set(ms2, 0, MASK_MIE, BIT_MIE);
        let csr2 = csr1.update(MSTATUS as int, ms3);
        let csr3 = match tval {
            Some(v) => csr2.update(MTVAL as int, v),
            None => csr2,
        };
        let mtvec = csr3[MTVEC as int];
        let c1 = CpuState { csr: csr3, mode: M_MODE, ..c };
        if mtvec & 3 == 0 {
            CpuState { pc: (mtvec & 0xfffffffc).wrapping_sub(4), ..c1 }
        } else if mtvec & 3 == 1 {
            c1
        } else {
            CpuState { halt: Some(Halt::BadTrapVector), ..c1 }
        }
    } else {
        let csr1 = c.csr.update(SEPC as int, c.pc).update(SCAUSE as int, cause);
        let ms1 = field_set(csr1[MSTATUS as int] & SSTATUS_MASK, c.mode, MASK_SPP, BIT_SPP)
            & SSTATUS_MASK;
        let ms2 = field_set(
            ms1 & SSTATUS_MASK,
            if MASK_SIE & (ms1 & SSTATUS_MASK) > 0 { 1 } else { 0 },
            MASK_SPIE,
            BIT_SPIE,
        ) & SSTATUS_MASK;
        let ms3 = field_set(ms2 & SSTATUS_MASK, 0, MASK_SIE, BIT_SIE) & SSTATUS_MASK;
        let csr2 = csr1.update(MSTATUS as int, ms3);
        let csr3 = match tval {
            Some(v) => csr2.update(STVAL as int, v),
            None => csr2,
        };
        let stvec = csr3[STVEC as int];
        let c1 = CpuState { csr: csr3, mode: S_MODE, ..c };
        if stvec & 3 == 0 {
            CpuState {
                pc: if s_back {
                    (stvec & 0xffff_ffff_ffff_fffc).wrapping_sub(4)
                } else {
                    stvec & 0xffff_ffff_ffff_fffc
                },
                ..c1
            }
        } else if stvec & 3 == 1 {
            c1
        } else {
            CpuState { halt: Some(Halt::BadTrapVector), ..c1 }
        }
    }
}

/// The mode an exception is taken in: supervisor when delegated by `medeleg` from a lower
/// mode, machine otherwise.
pub open spec fn exception_target(c: CpuState, e: Exception) -> u64 {
    if c.mode < M_MODE && ((1u64 << exception_code(e)) & c.csr[MEDELEG as int]) != 0 {
        S_MODE
    } else {
        M_MODE
    }
}

/// The hart after taking exception `e`.
pub open spec fn exception_trap(c: CpuState, e: Exception) -> CpuState {
    trap_entry(c, exception_target(c, e), exception_code(e), Some(exception_tval(e)), true)
}

/// The mode interrupt `i` would be taken in now, if it can be taken: it must be pending and
/// enabled for its destination (machine unless delegated by `mideleg`), and interrupts must be
/// globally enabled for that destination: always from a less privileged mode, and in the
/// destination mode itself when its interrupt-enable bit in `mstatus` is set. A delegated
/// interrupt is never taken in machine mode.
pub open spec fn trap_mode_spec(c: CpuState, i: Interrupt) -> Option<u64> {
    let bit_i = interrupt_bit_code(i);
    if bit_i & c.csr[MIDELEG as int] == 0 {
        if c.csr[MIP as int] & c.csr[MIE as int] & bit_i == 0 {
            None
        } else if c.mode < M_MODE {
            Some(M_MODE)
        } else if c.csr[MSTATUS as int] & MASK_MIE != 0 {
            Some(M_MODE)
        } else {
            None
        }
    } else {
        if c.mode == M_MODE {
            None
        } else if c.csr[SIP as int] & c.csr[SIE as int] & bit_i == 0 {
            None
        } else if c.mode < S_MODE || (c.csr[MSTATUS as int] & SSTATUS_MASK) & MASK_SIE != 0 {
            Some(S_MODE)
        } else {
            None
        }
    }
}

/// The hart after taking interrupt `i`; nothing changes when it cannot be taken now.
pub open spec fn interrupt_trap(c: CpuState, i: Interrupt) -> CpuState {
    match trap_mode_spec(c, i) {
        Some(m) => trap_entry(c, m, INTERRUPT_BIT | interrupt_code(i), None, false),
        None => c,
    }
}

/// The first pending interrupt, in increasing order of cause code from position `k`, that can
/// be taken in a mode at least as privileged as the current one.
pub open spec fn first_takable(c: CpuState, k: int) -> Option<Interrupt>
    decreases 6 - k,
{
    if k >= 6 || k < 0 {
        None
    } else {
        let i = interrupt_at(k);
        if c.interrupts.contains(i) && (trap_mode_spec(c, i) matches Some(d) && d >= c.mode) {
            Some(i)
        } else {
            first_takable(c, k + 1)
        }
    }
}

/// The interrupt to take now, if any: nothing when no bit is both pending and enabled in the
/// current mode's `ip`/`ie` registers, else the first takable pending interrupt.
pub open spec fn interrupt_to_take(c: CpuState) -> Option<Interrupt> {
    let xip = if c.mode == M_MODE { c.csr[MIP as int] } else { c.csr[SIP as int] };
    let xie = if c.mode == M_MODE { c.csr[MIE as int] } else { c.csr[SIE as int] };
    if xip & xie == 0 {
        None
    } else {
        first_takable(c, 0)
    }
}

/// The hart after `mret`: interrupts enabled as saved in MPIE, MPIE set, MPP cleared to user
/// mode, back to the mode saved in MPP, and the program counter one instruction before `mepc`.
pub open spec fn mret_spec(c: CpuState) -> CpuState {
    let ms = c.csr[MSTATUS as int];
    let pp = field_get(ms, MASK_MPP, BIT_MPP);
    let pie = field_get(ms, MASK_MPIE, BIT_MPIE);
    let ms1 = field_set(ms, pie, MASK_MIE, BIT_MIE);
    let ms2 = field_set(ms1, 1, MASK_MPIE, BIT_MPIE);
    let ms3 = field_set(ms2, U_MODE, MASK_MPP, BIT_MPP);
    CpuState {
        csr: c.csr.update(MSTATUS as int, ms3),
        pc: c.csr[MEPC as int].wrapping_sub(4),
        mode: pp,
        ..c
    }
}

/// The hart after `sret`: the supervisor counterpart of `mret`, through `sstatus`.
pub open spec fn sret_spec(c: CpuState) -> CpuState {
    let ss = c.csr[MSTATUS as int] & SSTATUS_MASK;
    let pp = field_get(ss, MASK_SPP, BIT_SPP);
    let pie = field_get(ss, MASK_SPIE, BIT_SPIE);
    let ms1 = field_set(ss, pie, MASK_SIE, BIT_SIE) & SSTATUS_MASK;
    let ms2 = field_set(ms1 & SSTATUS_MASK, 1, MASK_SPIE, BIT_SPIE) & SSTATUS_MASK;
    let ms3 = field_set(ms2 & SSTATUS_MASK, U_MODE, MASK_SPP, BIT_SPP) & SSTATUS_MASK;
    CpuState {
        csr: c.csr.update(MSTATUS as int, ms3),
        pc: c.csr[SEPC as int].wrapping_sub(4),
        mode: pp,
        ..c
    }
}

/// The hart after the supervisor timer interrupt is brought up to date: every 10000 ticks of
/// the time counter it becomes pending when `stimecmp` is set and reached, and stops being
/// pending otherwise.
pub open spec fn update_pending_spec(c: CpuState) -> CpuState {
    let counter = time_of_cycle(c.cycle);
    let compare_value = c.csr[STIMECMP as int];
    if counter % 10000 == 0 {
        if compare_value > 0 && counter >= compare_value {
            CpuState { interrupts: c.interrupts.insert(Interrupt::SupervisorTimerInterrupt), ..c }
        } else {
            CpuState { interrupts: c.interrupts.remove(Interrupt::SupervisorTimerInterrupt), ..c }
        }
    } else {
        c
    }
}

/// `mret` undoes entering a machine-mode trap: it returns to the privilege mode the trap was
/// taken from, restores the machine interrupt-enable bit as it was, and sets the program
/// counter one instruction before the trapped one (the step loop then resumes at it).
pub proof fn lemma_mret_after_trap(c: CpuState, cause: u64, tval: Option<u64>, s_back: bool)
    requires
        c.wf(),
        c.mode <= 3,
    ensures
        mret_spec(trap_entry(c, M_MODE, cause, tval, s_back)).mode == c.mode,
        mret_spec(trap_entry(c, M_MODE, cause, tval, s_back)).pc == c.pc.wrapping_sub(4),
        mret_spec(trap_entry(c, M_MODE, cause, tval, s_back)).csr[MSTATUS as int] & MASK_MIE
            == c.csr[MSTATUS as int] & MASK_MIE,
{
    let ms0 = c.csr[MSTATUS as int];
    let m = c.mode;
    let ms1 = field_set(ms0, m, MASK_MPP, BIT_MPP);
    let ms2 = field_set(ms1, if MASK_MIE & ms1 > 0 { 1 } else { 0 }, MASK_MPIE, BIT_MPIE);
    let ms3 = field_set(ms2, 0, MASK_MIE, BIT_MIE);
    let pp = field_get(ms3, MASK_MPP, BIT_MPP);
    let pie = field_get(ms3, MASK_MPIE, BIT_MPIE);
    let n1 = field_set(ms3, pie, MASK_MIE, BIT_MIE);
    let n2 = field_set(n1, 1, MASK_MPIE, BIT_MPIE);
    let n3 = field_set(n2, U_MODE, MASK_MPP, BIT_MPP);
    assert(pp == m && n3 & 0x8 == ms0 & 0x8) by (bit_vector)
        requires
            m <= 3,
            ms1 == (ms0 & !0x1800u64) | ((m << 11u64) & 0x1800u64),
            ms2 == (ms1 & !0x80u64) | (((if 0x8u64 & ms1 > 0 { 1u64 } else { 0u64 }) << 7u64)
                & 0x80u64),
            ms3 == (ms2 & !0x8u64) | ((0u64 << 3u64) & 0x8u64),
            pp == (ms3 & 0x1800u64) >> 11u64,
            pie == (ms3 & 0x80u64) >> 7u64,
            n1 == (ms3 & !0x8u64) | ((pie << 3u64) & 0x8u64),
            n2 == (n1 & !0x80u64) | ((1u64 << 7u64) & 0x80u64),
            n3 == (n2 & !0x1800u64) | ((0u64 << 11u64) & 0x1800u64),
    ;
}

/// `sret` undoes entering a supervisor-mode trap from user or supervisor mode: it returns to
/// that mode, restores the supervisor interrupt-enable bit as it was, and sets the program
/// counter one instruction before the trapped one.
pub proof fn lemma_sret_after_trap(c: CpuState, cause: u64, tval: Option<u64>, s_back: bool)
    requires
        c.wf(),
        c.mode == U_MODE || c.mode == S_MODE,
    ensures
        sret_spec(trap_entry(c, S_MODE, cause, tval, s_back)).mode == c.mode,
        sret_spec(trap_entry(c, S_MODE, cause, tval, s_back)).pc == c.pc.wrapping_sub(4),
        sret_spec(trap_entry(c, S_MODE, cause, tval, s_back)).csr[MSTATUS as int] & MASK_SIE
            == c.csr[MSTATUS as int] & MASK_SIE,
{
    let ms0 = c.csr[MSTATUS as int];
    let m = c.mode;
    let ms1 = field_set(ms0 & SSTATUS_MASK, m, MASK_SPP, BIT_SPP) & SSTATUS_MASK;
    let ms2 = field_set(
        ms1 & SSTATUS_MASK,
        if MASK_SIE & (ms1 & SSTATUS_MASK) > 0 { 1 } else { 0 },
        MASK_SPIE,
        BIT_SPIE,
    ) & SSTATUS_MASK;
    let ms3 = field_set(ms2 & SSTATUS_MASK, 0, MASK_SIE, BIT_SIE) & SSTATUS_MASK;
    let ss = ms3 & SSTATUS_MASK;
    let pp = field_get(ss, MASK_SPP, BIT_SPP);
    let pie = field_get(ss, MASK_SPIE, BIT_SPIE);
    let n1 = field_set(ss, pie, MASK_SIE, BIT_SIE) & SSTATUS_MASK;
    let n2 = field_set(n1 & SSTATUS_MASK, 1, MASK_SPIE, BIT_SPIE) & SSTATUS_MASK;
    let n3 = field_set(n2 & SSTATUS_MASK, U_MODE, MASK_SPP, BIT_SPP) & SSTATUS_MASK;
    let k = SSTATUS_MASK;
    assert(pp == m && n3 & 0x2 == ms0 & 0x2) by (bit_vector)
        requires
            m <= 1,
            k == 0xffff_fff3_ff8d_e777u64,
            ms1 == (((ms0 & k) & !0x300u64) | ((m << 8u64) & 0x300u64)) & k,
            ms2 == ((((ms1 & k) & !0x20u64) | (((if 0x2u64 & (ms1 & k) > 0 { 1u64 } else { 0u64 })
                << 5u64) & 0x20u64)) & k),
            ms3 == (((ms2 & k) & !0x2u64) | ((0u64 << 1u64) & 0x2u64)) & k,
            ss == ms3 & k,
            pp == (ss & 0x300u64) >> 8u64,
            pie == (ss & 0x20u64) >> 5u64,
            n1 == ((ss & !0x2u64) | ((pie << 1u64) & 0x2u64)) & k,
            n2 == (((n1 & k) & !0x20u64) | ((1u64 << 5u64) & 0x20u64)) & k,
            n3 == (((n2 & k) & !0x300u64) | ((0u64 << 8u64) & 0x300u64)) & k,
    ;
}

impl Cpu {
    fn enter_trap(&mut self, target: u64, cause: u64, tval: Option<u64>, s_back: bool)
        requires
            old(self)@.wf(),
        ensures
            final(self)@.wf(),
            final(self)@ == trap_entry(old(self)@, target, cause, tval, s_back),
    {
        if target == M_MODE {
            self.csr.store_csrs(MEPC, self.pc);
            self.csr.store_csrs(MCAUSE, cause);
            self.csr.set_mstatus_bit(self.mode, MASK_MPP, BIT_MPP);
            let mie = MASK_MIE & self.csr.load_csrs(MSTATUS, self.cycle);
            self.csr.set_mstatus_bit(if mie > 0 { 1 } else { 0 }, MASK_MPIE, BIT_MPIE);
            self.csr.set_mstatus_bit(0, MASK_MIE, BIT_MIE);
            match tval {
                Some(v) => self.csr.store_csrs(MTVAL, v),
                None => {},
            }
            self.mode = M_MODE;
            let mtvec = self.csr.load_csrs(MTVEC, self.cycle);
            if mtvec & 0x3 == 0 {
                self.pc = (mtvec & 0xfffffffc).wrapping_sub(4);
            } else if mtvec & 0x3 == 1 {
            } else {
                self.halt = Some(Halt::BadTrapVector);
            }
        } else {
            self.csr.store_csrs(SEPC, self.pc);
            self.csr.store_csrs(SCAUSE, cause);
            self.csr.set_sstatus_bit(self.mode, MASK_SPP, BIT_SPP);
            let sie = MASK_SIE & self.csr.load_csrs(SSTATUS, self.cycle);
            self.csr.set_sstatus_bit(if sie > 0 { 1 } else { 0 }, MASK_SPIE, BIT_SPIE);
            self.csr.set_sstatus_bit(0, MASK_SIE, BIT_SIE);
            match tval {
                Some(v) => self.csr.store_csrs(STVAL, v),
                None => {},
            }
            self.mode = S_MODE;
            let stvec = self.csr.load_csrs(STVEC, self.cycle);
            if stvec & 0x3 == 0 {
                if s_back {
                    self.pc = (stvec & 0xffff_ffff_ffff_fffc).wrapping_sub(4);
                } else {
                    self.pc = stvec & 0xffff_ffff_ffff_fffc;
                }
            } else if stvec & 0x3 == 1 {
            } else {
                self.halt = Some(Halt::BadTrapVector);
            }
        }
        assert(self@ =~= trap_entry(old(self)@, target, cause, tval, s_back));
    }

    /// Leaves a machine-mode trap handler (`mret`).
    pub fn return_from_machine_trap(&mut self)
        requires
            old(self)@.wf(),
        ensures
            final(self)@.wf(),
            final(self)@ == mret_spec(old(self)@),
    {
        let pp = self.csr.get_mstatus_bit(MASK_MPP, BIT_MPP);
        let pie = self.csr.get_mstatus_bit(MASK_MPIE, BIT_MPIE);
        let previous_pc = self.csr.load_csrs(MEPC, self.cycle);
        self.csr.set_mstatus_bit(pie, MASK_MIE, BIT_MIE);
        self.csr.set_mstatus_bit(0b1, MASK_MPIE, BIT_MPIE);
        self.csr.set_mstatus_bit(U_MODE, MASK_MPP, BIT_MPP);
        self.pc = previous_pc.wrapping_sub(4);
        self.mode = pp;
        assert(self@ =~= mret_spec(old(self)@));
    }

    /// Leaves a supervisor-mode trap handler (`sret`).
    pub fn return_from_supervisor_trap(&mut self)
        requires
            old(self)@.wf(),
        ensures
            final(self)@.wf(),
            final(self)@ == sret_spec(old(self)@),
    {
        let pp = self.csr.get_sstatus_bit(MASK_SPP, BIT_SPP);
        let pie = self.csr.get_sstatus_bit(MASK_SPIE, BIT_SPIE);
        let previous_pc = self.csr.load_csrs(SEPC, self.cycle);
        self.csr.set_sstatus_bit(pie, MASK_SIE, BIT_SIE);
        self.csr.set_sstatus_bit(0b1, MASK_SPIE, BIT_SPIE);
        self.csr.set_sstatus_bit(U_MODE, MASK_SPP, BIT_SPP);
        self.pc = previous_pc.wrapping_sub(4);
        self.mode = pp;
        assert(self@ =~= sret_spec(old(self)@));
    }

    /// The takable pending interrupt to take now, if any.
    pub fn get_interrupt_to_take(&mut self) -> (r: Option<Interrupt>)
        requires
            old(self)@.wf(),
        ensures
            final(self)@ == old(self)@,
            r == interrupt_to_take(old(self)@),
    {
        let xip = if self.mode == M_MODE {
            self.csr.load_csrs(MIP, self.cycle)
        } else {
            self.csr.load_csrs(SIP, self.cycle)
        };
        let xie = if self.mode == M_MODE {
            self.csr.load_csrs(MIE, self.cycle)
        } else {
            self.csr.load_csrs(SIE, self.cycle)
        };
        if xip & xie == 0 {
            return None;
        }
        let mut k: usize = 0;
        while k < 6
            invariant
                k <= 6,
                self@.wf(),
                self@ == old(self)@,
                interrupt_to_take(self@) == first_takable(self@, 0),
                first_takable(self@, 0) == first_takable(self@, k as int),
            decreases 6 - k,
        {
            let interrupt = interrupt_by_index(k);
            if self.interrupt_list.contains_index(k) {
                match interrupt.get_trap_mode(self) {
                    Ok(destined_mode) => {
                        if destined_mode >= self.mode {
                            return Some(interrupt);
                        }
                    },
                    Err(_) => {},
                }
            }
            k = k + 1;
        }
        None
    }

    /// Brings the supervisor timer interrupt up to date with the time counter.
    pub fn update_pending_interrupts(&mut self)
        requires
            old(self)@.wf(),
        ensures
            final(self)@.wf(),
            final(self)@ == update_pending_spec(old(self)@),
    {
        let stimecmp = self.csr.load_csrs(STIMECMP, self.cycle);
        let current_counter = self.cycle / CYCLES_PER_TICK;
        if current_counter % 10000 == 0 {
            if (stimecmp > 0) && (current_counter >= stimecmp) {
                self.interrupt_list.insert(Interrupt::SupervisorTimerInterrupt);
            } else {
                self.interrupt_list.remove(Interrupt::SupervisorTimerInterrupt);
            }
        }
        assert(self@ =~= update_pending_spec(old(self)@));
    }
}

impl Interrupt {
    /// Takes this interrupt if it can be taken now: saves the program counter and cause,
    /// updates the status register and jumps to the handler of the destination mode.
    pub fn take_trap(&mut self, cpu: &mut Cpu)
        requires
            old(cpu)@.wf(),
        ensures
            final(cpu)@.wf(),
            final(cpu)@ == interrupt_trap(old(cpu)@, *old(self)),
            *final(self) == *old(self),
    {
        let cause = INTERRUPT_BIT | self.code();
        match self.get_trap_mode(cpu) {
            Ok(target) => cpu.enter_trap(target, cause, None, false),
            Err(_) => {},
        }
    }

    /// The mode this interrupt would be taken in now, or an error when it cannot be taken.
    pub fn get_trap_mode(&self, cpu: &Cpu) -> (r: Result<u64, ()>)
        requires
            cpu@.wf(),
        ensures
            r == (match trap_mode_spec(cpu@, *self) {
                Some(m) => Ok::<u64, ()>(m),
                None => Err(()),
            }),
    {
        let bit_i = self.bit_code();
        let mideleg = cpu.csr.load_csrs(MIDELEG, cpu.cycle);
        let destined_mode = if (bit_i & mideleg) == 0 {
            M_MODE
        } else {
            S_MODE
        };
        let current_mode = cpu.mode;
        if destined_mode == M_MODE {
            let mip = cpu.csr.load_csrs(MIP, cpu.cycle);
            let mie = cpu.csr.load_csrs(MIE, cpu.cycle);
            let mstatus = cpu.csr.load_csrs(MSTATUS, cpu.cycle);
            if (mip & mie & bit_i) == 0 {
                return Err(());
            }
            if current_mode < M_MODE {
                return Ok(M_MODE);
            }
            if mstatus & MASK_MIE != 0 {
                return Ok(M_MODE);
            }
            Err(())
        } else {
            let sip = cpu.csr.load_csrs(SIP, cpu.cycle);
            let sie = cpu.csr.load_csrs(SIE, cpu.cycle);
            let sstatus = cpu.csr.load_csrs(SSTATUS, cpu.cycle);
            if current_mode == M_MODE {
                return Err(());
            }
            if (sip & sie & bit_i) == 0 {
                return Err(());
            }
            if current_mode < S_MODE || (sstatus & MASK_SIE) != 0 {
                return Ok(S_MODE);
            }
            Err(())
        }
    }
}

impl Exception {
    /// Takes this exception: saves the program counter, cause and faulting value, updates the
    /// status register and jumps to the handler (one instruction early, as the step loop adds
    /// 4 afterwards).
    pub fn take_trap(&self, cpu: &mut Cpu)
        requires
            old(cpu)@.wf(),
        ensures
            final(cpu)@.wf(),
            final(cpu)@ == exception_trap(old(cpu)@, *self),
    {
        let cause = self.code();
        let target_mode = self.get_target_mode(cpu);
        let xtval = self.tval();
        cpu.enter_trap(target_mode, cause, Some(xtval), true);
    }

    /// The mode this exception is taken in.
    pub fn get_target_mode(&self, cpu: &Cpu) -> (m: u64)
        requires
            cpu@.wf(),
        ensures
            m == exception_target(cpu@, *self),
    {
        let exception_bit = self.bit_code();
        let medeleg = cpu.csr.load_csrs(MEDELEG, cpu.cycle);
        if (cpu.mode < M_MODE) && ((exception_bit & medeleg) != 0) {
            S_MODE
        } else {
            M_MODE
        }
    }
}


/// When an interrupt is taken, and where. With `bit` the interrupt's mask (`bit_code`): an
/// interrupt delegated by `mideleg` is taken in supervisor mode when it is pending and enabled
/// in `sip`/`sie` and the hart runs in user mode, or in supervisor mode with `sstatus.SIE`
/// set; it is never taken in machine mode. An interrupt not delegated is taken in machine mode
/// when it is pending and enabled in `mip`/`mie` and the hart runs below machine mode, or in
/// machine mode with `mstatus.MIE` set. In every other case it is not taken.
pub proof fn lemma_trap_mode_rules(c: CpuState, i: Interrupt)
    requires
        c.mode == U_MODE || c.mode == S_MODE || c.mode == M_MODE,
    ensures
        ({
            let bit = interrupt_bit_code(i);
            let delegated = bit & c.csr[MIDELEG as int] != 0;
            let pending_s = c.csr[SIP as int] & c.csr[SIE as int] & bit != 0;
            let pending_m = c.csr[MIP as int] & c.csr[MIE as int] & bit != 0;
            let sie_on = c.csr[MSTATUS as int] & MASK_SIE != 0;
            let mie_on = c.csr[MSTATUS as int] & MASK_MIE != 0;
            let m = trap_mode_spec(c, i);
            &&& delegated && pending_s && c.mode == U_MODE ==> m == Some(S_MODE)
            &&& delegated && pending_s && c.mode == S_MODE && sie_on ==> m == Some(S_MODE)
            &&& delegated && c.mode == S_MODE && !sie_on ==> m is None
            &&& delegated && c.mode == M_MODE ==> m is None
            &&& delegated && !pending_s ==> m is None
            &&& !delegated && pending_m && c.mode != M_MODE ==> m == Some(M_MODE)
            &&& !delegated && pending_m && c.mode == M_MODE ==> (m == Some(M_MODE) <==> mie_on)
            &&& !delegated && pending_m && c.mode == M_MODE && !mie_on ==> m is None
            &&& !delegated && !pending_m ==> m is None
        }),
{
    let ms = c.csr[MSTATUS as int];
    assert((ms & 0xffff_fff3_ff8d_e777u64) & 0x2u64 != 0 <==> ms & 0x2u64 != 0) by (bit_vector);
    assert((ms & SSTATUS_MASK) & MASK_SIE != 0 <==> ms & MASK_SIE != 0);
}


/// Taking an exception: unless it is delegated by `medeleg` from below machine mode, the hart
/// enters machine mode with `mepc` holding the address of the faulting instruction, `mcause`
/// the exception's cause code and `mtval` its value (the faulting address of a page fault, 0
/// otherwise); a delegated one enters supervisor mode with `sepc`, `scause` and `stval` set
/// likewise. The registers are kept. With a direct vector the handler runs next (the program
/// counter is left one instruction before it).
pub proof fn lemma_exception_entry(c: CpuState, e: Exception)
    requires
        c.wf(),
    ensures
        ({
            let t = exception_trap(c, e);
            let delegated = c.mode < M_MODE && ((1u64 << exception_code(e)) & c.csr[MEDELEG as int])
                != 0;
            &&& t.regs == c.regs
            &&& !delegated ==> {
                &&& t.mode == M_MODE
                &&& t.csr[MEPC as int] == c.pc
                &&& t.csr[MCAUSE as int] == exception_code(e)
                &&& t.csr[MTVAL as int] == exception_tval(e)
                &&& c.csr[MTVEC as int] & 3 == 0 ==> t.pc == (c.csr[MTVEC as int] & 0xfffffffc).wrapping_sub(4)
                    && t.halt == c.halt
            }
            &&& delegated ==> {
                &&& t.mode == S_MODE
                &&& t.csr[SEPC as int] == c.pc
                &&& t.csr[SCAUSE as int] == exception_code(e)
                &&& t.csr[STVAL as int] == exception_tval(e)
            }
        }),
{
}

/// The cause codes of the exceptions, as the privileged architecture numbers them, and the
/// value each leaves in the trap value register.
pub proof fn lemma_exception_codes(e: Exception)
    ensures
        exception_code(e) == match e {
            Exception::InstructionAddressMissaligned => 0u64,
            Exception::InstructionAccessFault => 1,
            Exception::IllegalInstruction(_) => 2,
            Exception::BreakPoint => 3,
            Exception::LoadAddressMissaligned => 4,
            Exception::LoadAccessFault => 5,
            Exception::StoreAMOAddressMisaligned => 6,
            Exception::StoreAMOAccessFault => 7,
            Exception::EnvironmentalCallFromUMode => 8,
            Exception::EnvironmentalCallFromSMode => 9,
            Exception::EnvironmentalCallFromMMode => 11,
            Exception::InstructionPageFault(_) => 12,
            Exception::LoadPageFault(_) => 13,
            Exception::StoreAMOPageFault(_) => 15,
        },
        exception_tval(e) == match e {
            Exception::InstructionPageFault(v) => v as u64,
            Exception::LoadPageFault(v) => v as u64,
            Exception::StoreAMOPageFault(v) => v as u64,
            _ => 0u64,
        },
{
}


/// Whether interrupt `i` is pending on the hart and can be taken now, in a mode at least as
/// privileged as the current one.
pub open spec fn takable_now(c: CpuState, i: Interrupt) -> bool {
    c.interrupts.contains(i) && (trap_mode_spec(c, i) matches Some(d) && d >= c.mode)
}

proof fn lemma_first_takable_min(c: CpuState, k: int)
    requires
        0 <= k <= 6,
    ensures
        match first_takable(c, k) {
            Some(i) => takable_now(c, i) && interrupt_index(i) >= k && forall|j: Interrupt|
                #[trigger] takable_now(c, j) && interrupt_index(j) >= k ==> interrupt_code(i)
                    <= interrupt_code(j),
            None => forall|j: Interrupt| interrupt_index(j) >= k ==> !#[trigger] takable_now(c, j),
        },
    decreases 6 - k,
{
    if k < 6 {
        lemma_first_takable_min(c, k + 1);
        assert forall|j: Interrupt| interrupt_index(j) == k implies j == interrupt_at(k) by {
            match j {
                Interrupt::SupervisorSoftwareInterrupt => {},
                Interrupt::MachineSoftwareInterrupt => {},
                Interrupt::SupervisorTimerInterrupt => {},
                Interrupt::MachineTimerInterrupt => {},
                Interrupt::SupervisorExternalInterrupt => {},
                Interrupt::MachineExternalInterrupt => {},
            }
        }
        assert(interrupt_index(interrupt_at(k)) == k);
        assert forall|j: Interrupt| interrupt_index(j) >= k implies interrupt_code(interrupt_at(k))
            <= interrupt_code(j) by {
            match j {
                Interrupt::SupervisorSoftwareInterrupt => {},
                Interrupt::MachineSoftwareInterrupt => {},
                Interrupt::SupervisorTimerInterrupt => {},
                Interrupt::MachineTimerInterrupt => {},
                Interrupt::SupervisorExternalInterrupt => {},
                Interrupt::MachineExternalInterrupt => {},
            }
        }
    } else {
        assert forall|j: Interrupt| interrupt_index(j) >= k implies !#[trigger] takable_now(c, j) by {
            match j {
                Interrupt::SupervisorSoftwareInterrupt => {},
                Interrupt::MachineSoftwareInterrupt => {},
                Interrupt::SupervisorTimerInterrupt => {},
                Interrupt::MachineTimerInterrupt => {},
                Interrupt::SupervisorExternalInterrupt => {},
                Interrupt::MachineExternalInterrupt => {},
            }
        }
    }
}

/// Which interrupt is taken: none when no bit is both pending and enabled in the current
/// mode's `ip`/`ie` registers; otherwise a pending interrupt that can be taken now, the one
/// with the smallest cause code among all such, and none only when no pending interrupt can
/// be taken now.
pub proof fn lemma_interrupt_priority(c: CpuState)
    ensures
        ({
            let xip = if c.mode == M_MODE { c.csr[MIP as int] } else { c.csr[SIP as int] };
            let xie = if c.mode == M_MODE { c.csr[MIE as int] } else { c.csr[SIE as int] };
            &&& xip & xie == 0 ==> interrupt_to_take(c) is None
            &&& interrupt_to_take(c) matches Some(i) ==> takable_now(c, i) && forall|j: Interrupt|
                #[trigger] takable_now(c, j) ==> interrupt_code(i) <= interrupt_code(j)
            &&& xip & xie != 0 && interrupt_to_take(c) is None ==> forall|j: Interrupt|
                !#[trigger] takable_now(c, j)
        }),
{
    lemma_first_takable_min(c, 0);
    assert forall|j: Interrupt| interrupt_index(j) >= 0 by {
        match j {
            Interrupt::SupervisorSoftwareInterrupt => {},
            Interrupt::MachineSoftwareInterrupt => {},
            Interrupt::SupervisorTimerInterrupt => {},
            Interrupt::MachineTimerInterrupt => {},
            Interrupt::SupervisorExternalInterrupt => {},
            Interrupt::MachineExternalInterrupt => {},
        }
    }
}

} // verus!
