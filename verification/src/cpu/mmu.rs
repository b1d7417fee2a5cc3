use super::{bit, bit_spec, AccessMode, Cpu, CpuState, Halt, M_MODE, U_MODE};
use crate::bus::{Bus, BusState};
use crate::csr::{field_get, BIT_MPRV, MASK_MPRV, MSTATUS, SATP};
use crate::interrupt::Exception;
use vstd::prelude::*;

verus! {

/// Bytes in a page.
pub const PAGESIZE: u64 = 4096;
/// Bytes in a page-table entry.
pub const PTESIZE: u64 = 8;
/// Mask of a 44-bit physical page number.
pub const PPN_MASK: u64 = 0xfff_ffff_ffff;

/// The page fault an access of kind `acc` at `va` raises.
pub open spec fn page_fault(acc: AccessMode, va: u64) -> Exception {
    match acc {
        AccessMode::Fetch => Exception::InstructionPageFault(va as u32),
        AccessMode::Load => Exception::LoadPageFault(va as u32),
        AccessMode::Store => Exception::StoreAMOPageFault(va as u32),
    }
}

/// The virtual page number field of `va` used at `level` of the walk.
pub open spec fn vpn_spec(va: u64, level: int) -> u64 {
    if level == 0 {
        (va >> 12u64) & 0x1ff
    } else if level == 1 {
        (va >> 21u64) & 0x1ff
    } else {
        (va >> 30u64) & 0x1ff
    }
}

/// Whether bits 63..39 of `va` all equal bit 38, as Sv39 requires.
pub open spec fn canonical(va: u64) -> bool {
    let sign = (va >> 38u64) & 1;
    let upper = va >> 39u64;
    !((sign == 0 && upper != 0) || (sign == 1 && upper != 0x1ff_ffff))
}

/// The physical address a leaf entry `pte` found at `level` maps `va` to.
pub open spec fn leaf_address(pte: u64, level: int, va: u64) -> u64 {
    let ppn1 = (pte >> 19u64) & 0x1ff;
    let ppn2 = (pte >> 28u64) & 0x3ff_ffff;
    let vpn0 = (va >> 12u64) & 0x1ff;
    let vpn1 = (va >> 21u64) & 0x1ff;
    let ppn = if level == 0 {
        (pte >> 10u64) & PPN_MASK
    } else if level == 1 {
        ((ppn2 << 18u64) | (ppn1 << 9u64) | vpn0) & PPN_MASK
    } else {
        ((ppn2 << 18u64) | (vpn1 << 9u64) | vpn0) & PPN_MASK
    };
    (ppn << 12u64) | (va & 0xfff)
}

/// Whether a leaf entry `pte` at `level` maps a superpage whose low physical page number
/// bits are not zero.
pub open spec fn misaligned_superpage(pte: u64, level: int) -> bool {
    let ppn0 = (pte >> 10u64) & 0x1ff;
    let ppn1 = (pte >> 19u64) & 0x1ff;
    (level == 2 && (ppn0 != 0 || ppn1 != 0)) || (level == 1 && ppn0 != 0)
}

/// Whether a leaf entry's permission bits deny an access of kind `acc` in privilege `mode`.
pub open spec fn leaf_denies(pte: u64, acc: AccessMode, mode: u64) -> bool {
    let r = bit_spec(pte, 1);
    let w = bit_spec(pte, 2);
    let x = bit_spec(pte, 3);
    let u = bit_spec(pte, 4);
    ||| (acc == AccessMode::Fetch && x == 0)
    ||| (acc == AccessMode::Load && r == 0)
    ||| (acc == AccessMode::Store && w == 0)
    ||| (mode == U_MODE && u == 0)
}

/// `pte` with its accessed bit set, and its dirty bit set for a store.
pub open spec fn touched_pte(pte: u64, acc: AccessMode) -> u64 {
    let with_a = if bit_spec(pte, 6) == 0 { pte | 0x40 } else { pte };
    if acc == AccessMode::Store && bit_spec(pte, 7) == 0 { with_a | 0x80 } else { with_a }
}

/// The Sv39 walk from the table at physical address `a` and `level` down: the translation of
/// `va`, the hart after it (the translation cached under `key`, or halted on an entry read
/// beyond memory) and the bus after it (accessed/dirty bits written back).
pub open spec fn walk_spec(
    c: CpuState,
    b: BusState,
    va: u64,
    acc: AccessMode,
    a: u64,
    level: int,
    key: (u64, u64, u64),
) -> (Result<u64, Exception>, CpuState, BusState)
    decreases level,
{
    let pf = page_fault(acc, va);
    let pte_addr = (a + vpn_spec(va, level) * PTESIZE) as u64;
    if !b.mem_access_defined(pte_addr, 64) {
        (Err(pf), CpuState { halt: Some(Halt::OutOfBounds(pte_addr)), ..c }, b)
    } else {
        match b.load_spec(pte_addr, 64).0 {
            Err(_) => (Err(pf), c, b),
            Ok(pte) => {
                let v = bit_spec(pte, 0);
                let r = bit_spec(pte, 1);
                let w = bit_spec(pte, 2);
                let x = bit_spec(pte, 3);
                if v == 0 || (r == 0 && w == 1) {
                    (Err(pf), c, b)
                } else if r == 1 || x == 1 {
                    if leaf_denies(pte, acc, c.mode) {
                        (Err(pf), c, b)
                    } else {
                        let new_pte = touched_pte(pte, acc);
                        let (sr, b2) = if new_pte != pte {
                            b.store_spec(pte_addr, 64, new_pte)
                        } else {
                            (Ok(()), b)
                        };
                        if sr is Err {
                            (Err(pf), c, b2)
                        } else if misaligned_superpage(new_pte, level) {
                            (Err(pf), c, b2)
                        } else {
                            let pa = leaf_address(new_pte, level, va);
                            (Ok(pa), CpuState { tlb: c.tlb.insert(key, pa >> 12u64), ..c }, b2)
                        }
                    }
                } else if level <= 0 {
                    (Err(pf), c, b)
                } else {
                    walk_spec(c, b, va, acc, (((pte >> 10u64) & PPN_MASK) * PAGESIZE) as u64, level - 1, key)
                }
            },
        }
    }
}

/// The translation of virtual address `va` for an access of kind `acc`, and the hart and bus
/// after it. Machine mode uses physical addresses (loads and stores unless MPRV is set);
/// otherwise `satp` selects bare addressing or Sv39, with the translation cache consulted
/// before walking the page table.
pub open spec fn translate_spec(c: CpuState, b: BusState, va: u64, acc: AccessMode) -> (
    Result<u64, Exception>,
    CpuState,
    BusState,
) {
    if acc == AccessMode::Fetch && c.mode == M_MODE {
        (Ok(va), c, b)
    } else if acc != AccessMode::Fetch && c.mode == M_MODE && field_get(
        c.csr[MSTATUS as int],
        MASK_MPRV,
        BIT_MPRV,
    ) == 0 {
        (Ok(va), c, b)
    } else {
        let satp = c.csr[SATP as int];
        let mode = (satp >> 60u64) & 0xf;
        let asid = (satp >> 44u64) & 0xffff;
        let root = satp & PPN_MASK;
        let key = (root, asid, va >> 12u64);
        if mode == 0 {
            (Ok(va), c, b)
        } else if mode != 8 {
            (Err(page_fault(acc, va)), c, b)
        } else if !canonical(va) {
            (Err(page_fault(acc, va)), c, b)
        } else if c.tlb.contains_key(key) {
            (Ok((c.tlb[key] << 12u64) | (va & 0xfff)), c, b)
        } else {
            walk_spec(c, b, va, acc, (root * PAGESIZE) as u64, 2, key)
        }
    }
}

/// What a load of `size` bits from virtual address `va` returns, and the hart and bus after
/// it. The CLINT answers first, then the PLIC (whose claim register updates the pending
/// interrupts), then the bus. An access beyond memory or the PLIC register file halts the hart.
pub open spec fn cpu_load_spec(c: CpuState, b: BusState, va: u64, size: u64) -> (
    Result<u64, Exception>,
    CpuState,
    BusState,
) {
    let (t, c1, b1) = translate_spec(c, b, va, AccessMode::Load);
    match t {
        Err(e) => (Err(e), c1, b1),
        Ok(pa) => if c1.clint.accessible(pa) {
            (Ok(0), c1, b1)
        } else if b1.plic.accessible(pa) {
            if !b1.plic.load_defined(pa) {
                (
                    Err(Exception::LoadAccessFault),
                    CpuState { halt: Some(Halt::OutOfBounds(pa)), ..c1 },
                    b1,
                )
            } else {
                let (r, p2, i2) = b1.plic.load_spec(pa, c1.interrupts);
                (r, CpuState { interrupts: i2, ..c1 }, BusState { plic: p2, ..b1 })
            }
        } else if !b1.mem_access_defined(pa, size) {
            (Err(Exception::LoadAccessFault), CpuState { halt: Some(Halt::OutOfBounds(pa)), ..c1 }, b1)
        } else {
            let (r, b2) = b1.load_spec(pa, size);
            (r, c1, b2)
        },
    }
}

/// What a store of the low `size` bits of `value` at virtual address `va` returns, and the
/// hart and bus after it. The CLINT takes the store first, then the bus. An access beyond
/// memory halts the hart.
pub open spec fn cpu_store_spec(c: CpuState, b: BusState, va: u64, size: u64, value: u64) -> (
    Result<(), Exception>,
    CpuState,
    BusState,
) {
    let (t, c1, b1) = translate_spec(c, b, va, AccessMode::Store);
    match t {
        Err(e) => (Err(e), c1, b1),
        Ok(pa) => if c1.clint.accessible(pa) {
            (Ok(()), CpuState { clint: c1.clint.stored(pa, value), ..c1 }, b1)
        } else if !b1.mem_access_defined(pa, size) {
            (
                Err(Exception::StoreAMOAccessFault),
                CpuState { halt: Some(Halt::OutOfBounds(pa)), ..c1 },
                b1,
            )
        } else {
            let (r, b2) = b1.store_spec(pa, size, value);
            (r, c1, b2)
        },
    }
}

/// What fetching the instruction word at virtual address `addr` returns, and the hart and bus
/// after it. A fetch beyond memory halts the hart.
pub open spec fn cpu_fetch_spec(c: CpuState, b: BusState, addr: u64) -> (
    Result<u32, Exception>,
    CpuState,
    BusState,
) {
    let (t, c1, b1) = translate_spec(c, b, addr, AccessMode::Fetch);
    match t {
        Err(e) => (Err(e), c1, b1),
        Ok(pa) => if !b1.mem_access_defined(pa, 32) {
            (
                Err(Exception::InstructionAccessFault),
                CpuState { halt: Some(Halt::OutOfBounds(pa)), ..c1 },
                b1,
            )
        } else {
            let (r, b2) = b1.load_spec(pa, 32);
            (
                match r {
                    Ok(v) => Ok(v as u32),
                    Err(e) => Err(e),
                },
                c1,
                b2,
            )
        },
    }
}

/// `c1` differs from `c` at most in what a memory access may change: the translation cache,
/// the halt reason, the pending interrupts and the CLINT.
pub open spec fn access_frame(c1: CpuState, c: CpuState) -> bool {
    c1 == CpuState { tlb: c1.tlb, halt: c1.halt, interrupts: c1.interrupts, clint: c1.clint, ..c }
}

/// A page-table walk changes nothing of the hart but the translation cache and halt reason.
pub proof fn lemma_walk_frame(
    c: CpuState,
    b: BusState,
    va: u64,
    acc: AccessMode,
    a: u64,
    level: int,
    key: (u64, u64, u64),
)
    ensures
        access_frame(walk_spec(c, b, va, acc, a, level, key).1, c),
        walk_spec(c, b, va, acc, a, level, key).1.interrupts == c.interrupts,
        walk_spec(c, b, va, acc, a, level, key).1.clint == c.clint,
    decreases level,
{
    let pte_addr = (a + vpn_spec(va, level) * PTESIZE) as u64;
    if b.mem_access_defined(pte_addr, 64) {
        if let Ok(pte) = b.load_spec(pte_addr, 64).0 {
            if level > 0 {
                lemma_walk_frame(
                    c,
                    b,
                    va,
                    acc,
                    (((pte >> 10u64) & PPN_MASK) * PAGESIZE) as u64,
                    level - 1,
                    key,
                );
            }
        }
    }
    let c1 = walk_spec(c, b, va, acc, a, level, key).1;
    assert(c1 =~= CpuState { tlb: c1.tlb, halt: c1.halt, interrupts: c1.interrupts, clint: c1.clint, ..c });
}

/// Loads, stores and fetches change nothing of the hart but the translation cache, the halt
/// reason, the pending interrupts and the CLINT.
pub proof fn lemma_access_frame(c: CpuState, b: BusState, va: u64, size: u64, value: u64)
    ensures
        access_frame(cpu_load_spec(c, b, va, size).1, c),
        access_frame(cpu_store_spec(c, b, va, size, value).1, c),
        access_frame(cpu_fetch_spec(c, b, va).1, c),
{
    let satp = c.csr[SATP as int];
    let key = (satp & PPN_MASK, (satp >> 44u64) & 0xffff, va >> 12u64);
    let a = ((satp & PPN_MASK) * PAGESIZE) as u64;
    lemma_walk_frame(c, b, va, AccessMode::Load, a, 2, key);
    lemma_walk_frame(c, b, va, AccessMode::Store, a, 2, key);
    lemma_walk_frame(c, b, va, AccessMode::Fetch, a, 2, key);
    let l = cpu_load_spec(c, b, va, size).1;
    let s = cpu_store_spec(c, b, va, size, value).1;
    let f = cpu_fetch_spec(c, b, va).1;
    assert(l =~= CpuState { tlb: l.tlb, halt: l.halt, interrupts: l.interrupts, clint: l.clint, ..c });
    assert(s =~= CpuState { tlb: s.tlb, halt: s.halt, interrupts: s.interrupts, clint: s.clint, ..c });
    assert(f =~= CpuState { tlb: f.tlb, halt: f.halt, interrupts: f.interrupts, clint: f.clint, ..c });
}

proof fn lemma_load64_pure(b: BusState, addr: u64)
    requires
        b.wf(),
    ensures
        b.load_spec(addr, 64).1 == b,
{
}

impl Cpu {
    /// Translates `va` for an access of kind `acc` (Sv39 walk with permission checks,
    /// accessed/dirty updates and the translation cache). An entry read beyond memory halts
    /// the hart.
    pub fn translate(&mut self, bus: &mut Bus, va: u64, acc: AccessMode) -> (r: Result<
        u64,
        Exception,
    >)
        requires
            old(self)@.wf(),
            old(bus)@.wf(),
        ensures
            final(self)@.wf(),
            final(bus)@.wf(),
            (r, final(self)@, final(bus)@) == translate_spec(old(self)@, old(bus)@, va, acc),
    {
        if acc == AccessMode::Fetch {
            if self.mode == M_MODE {
                return Ok(va);
            }
        }
        if acc == AccessMode::Load || acc == AccessMode::Store {
            if self.mode == M_MODE && self.csr.get_mstatus_bit(MASK_MPRV, BIT_MPRV) == 0 {
                return Ok(va);
            }
        }
        let satp = self.csr.load_csrs(SATP, self.cycle);
        let mode = (satp >> 60u64) & 0xf;
        let asid = (satp >> 44u64) & 0xffff;
        let satp_ppn = satp & PPN_MASK;
        if mode == 0 {
            return Ok(va);
        }
        if mode != 8 {
            return Err(Cpu::page_fault(acc, va));
        }
        let sign = (va >> 38u64) & 1;
        let upper = va >> 39u64;
        if (sign == 0 && upper != 0) || (sign == 1 && upper != 0x1ff_ffff) {
            return Err(Cpu::page_fault(acc, va));
        }
        let va_page = va >> 12u64;
        let tlb_key = (satp_ppn, asid, va_page);
        match self.address_translation_cache.get(tlb_key) {
            Some(pa_page) => {
                return Ok((pa_page << 12u64) | (va & 0xfff));
            },
            None => {},
        }
        assert(satp_ppn <= PPN_MASK) by (bit_vector)
            requires
                satp_ppn == satp & PPN_MASK,
        ;
        let mut a = satp_ppn * PAGESIZE;
        let mut level: u64 = 2;
        let ghost c0 = self@;
        let ghost b0 = bus@;
        loop
            invariant
                level <= 2,
                a <= PPN_MASK * PAGESIZE,
                self@ == c0,
                bus@ == b0,
                c0 == old(self)@,
                b0 == old(bus)@,
                c0.wf(),
                b0.wf(),
                translate_spec(c0, b0, va, acc) == walk_spec(
                    c0,
                    b0,
                    va,
                    acc,
                    a,
                    level as int,
                    tlb_key,
                ),
            decreases level,
        {
            let vpn = if level == 0 {
                (va >> 12u64) & 0x1ff
            } else if level == 1 {
                (va >> 21u64) & 0x1ff
            } else {
                (va >> 30u64) & 0x1ff
            };
            assert(vpn <= 0x1ff) by (bit_vector)
                requires
                    vpn == (va >> 12u64) & 0x1ff || vpn == (va >> 21u64) & 0x1ff || vpn == (va
                        >> 30u64) & 0x1ff,
            ;
            let pte_addr = a + vpn * PTESIZE;
            assert(vpn == vpn_spec(va, level as int));
            assert(pte_addr == (a + vpn_spec(va, level as int) * PTESIZE) as u64);
            if !bus.is_access_defined(pte_addr, 64) {
                self.halt = Some(Halt::OutOfBounds(pte_addr));
                assert(self@ =~= (CpuState { halt: Some(Halt::OutOfBounds(pte_addr)), ..c0 }));
                return Err(Cpu::page_fault(acc, va));
            }
            proof {
                lemma_load64_pure(bus@, pte_addr);
            }
            let mut pte = match bus.load(pte_addr, 64) {
                Ok(p) => p,
                Err(_) => {
                    return Err(Cpu::page_fault(acc, va));
                },
            };
            let ghost pte0 = pte;
            let v = bit(pte, 0);
            let r = bit(pte, 1);
            let w = bit(pte, 2);
            let x = bit(pte, 3);
            let u = bit(pte, 4);
            let a_bit = bit(pte, 6);
            let d_bit = bit(pte, 7);
            if v == 0 || (r == 0 && w == 1) {
                return Err(Cpu::page_fault(acc, va));
            }
            let is_leaf = (r == 1) || (x == 1);
            if is_leaf {
                let denied = match acc {
                    AccessMode::Fetch => x == 0,
                    AccessMode::Load => r == 0,
                    AccessMode::Store => w == 0,
                };
                if denied {
                    return Err(Cpu::page_fault(acc, va));
                }
                if self.mode == U_MODE && u == 0 {
                    return Err(Cpu::page_fault(acc, va));
                }
                let mut new_pte = pte;
                if a_bit == 0 {
                    new_pte = new_pte | 0x40;
                }
                if acc == AccessMode::Store && d_bit == 0 {
                    new_pte = new_pte | 0x80;
                }
                assert(new_pte == touched_pte(pte0, acc));
                if new_pte != pte {
                    match bus.store(pte_addr, 64, new_pte) {
                        Ok(()) => {},
                        Err(_) => {
                            return Err(Cpu::page_fault(acc, va));
                        },
                    }
                    pte = new_pte;
                }
                let ppn0 = (pte >> 10u64) & 0x1ff;
                let ppn1 = (pte >> 19u64) & 0x1ff;
                let ppn2 = (pte >> 28u64) & 0x3ff_ffff;
                if level == 2 {
                    if ppn0 != 0 || ppn1 != 0 {
                        return Err(Cpu::page_fault(acc, va));
                    }
                } else if level == 1 {
                    if ppn0 != 0 {
                        return Err(Cpu::page_fault(acc, va));
                    }
                }
                let page_off = va & 0xfff;
                let vpn0 = (va >> 12u64) & 0x1ff;
                let vpn1 = (va >> 21u64) & 0x1ff;
                let pa: u64 = if level == 0 {
                    let ppn = (pte >> 10u64) & PPN_MASK;
                    (ppn << 12u64) | page_off
                } else if level == 1 {
                    let ppn = ((ppn2 << 18u64) | (ppn1 << 9u64) | vpn0) & PPN_MASK;
                    (ppn << 12u64) | page_off
                } else {
                    let ppn = ((ppn2 << 18u64) | (vpn1 << 9u64) | vpn0) & PPN_MASK;
                    (ppn << 12u64) | page_off
                };
                assert(pa == leaf_address(touched_pte(pte0, acc), level as int, va));
                self.address_translation_cache.insert(tlb_key, pa >> 12u64);
                assert(self@ =~= (CpuState { tlb: c0.tlb.insert(tlb_key, pa >> 12u64), ..c0 }));
                return Ok(pa);
            }
            if level == 0 {
                return Err(Cpu::page_fault(acc, va));
            }
            let next_ppn = (pte >> 10u64) & PPN_MASK;
            assert(next_ppn <= PPN_MASK) by (bit_vector)
                requires
                    next_ppn == (pte >> 10u64) & PPN_MASK,
            ;
            a = next_ppn * PAGESIZE;
            level = level - 1;
        }
    }

    /// Loads `size` bits from virtual address `va`.
    pub fn load(&mut self, bus: &mut Bus, va: u64, size: u64) -> (r: Result<u64, Exception>)
        requires
            old(self)@.wf(),
            old(bus)@.wf(),
        ensures
            final(self)@.wf(),
            final(bus)@.wf(),
            (r, final(self)@, final(bus)@) == cpu_load_spec(old(self)@, old(bus)@, va, size),
    {
        match self.translate(bus, va, AccessMode::Load) {
            Ok(pa) => {
                if self.clint.is_accessible(pa) {
                    self.clint.load(pa, size)
                } else if bus.plic.is_accessible(pa) {
                    if !bus.plic.is_load_defined(pa) {
                        self.halt = Some(Halt::OutOfBounds(pa));
                        return Err(Exception::LoadAccessFault);
                    }
                    let r = bus.plic_load(pa, size, &mut self.interrupt_list);
                    assert(bus@ =~= (BusState { plic: bus@.plic, ..bus@ }));
                    r
                } else {
                    if !bus.is_access_defined(pa, size) {
                        self.halt = Some(Halt::OutOfBounds(pa));
                        return Err(Exception::LoadAccessFault);
                    }
                    bus.load(pa, size)
                }
            },
            Err(e) => Err(e),
        }
    }

    /// Stores the low `size` bits of `value` at virtual address `va`.
    pub fn store(&mut self, bus: &mut Bus, va: u64, size: u64, value: u64) -> (r: Result<
        (),
        Exception,
    >)
        requires
            old(self)@.wf(),
            old(bus)@.wf(),
        ensures
            final(self)@.wf(),
            final(bus)@.wf(),
            (r, final(self)@, final(bus)@) == cpu_store_spec(
                old(self)@,
                old(bus)@,
                va,
                size,
                value,
            ),
    {
        match self.translate(bus, va, AccessMode::Store) {
            Ok(pa) => {
                if self.clint.is_accessible(pa) {
                    let r = self.clint.store(pa, size, value);
                    assert(self.clint@.wf());
                    r
                } else {
                    if !bus.is_access_defined(pa, size) {
                        self.halt = Some(Halt::OutOfBounds(pa));
                        return Err(Exception::StoreAMOAccessFault);
                    }
                    bus.store(pa, size, value)
                }
            },
            Err(e) => Err(e),
        }
    }

    /// Fetches the instruction word at virtual address `addr`.
    pub fn fetch(&mut self, bus: &mut Bus, addr: u64) -> (r: Result<u32, Exception>)
        requires
            old(self)@.wf(),
            old(bus)@.wf(),
        ensures
            final(self)@.wf(),
            final(bus)@.wf(),
            (r, final(self)@, final(bus)@) == cpu_fetch_spec(old(self)@, old(bus)@, addr),
    {
        match self.translate(bus, addr, AccessMode::Fetch) {
            Ok(pa) => {
                if !bus.is_access_defined(pa, 32) {
                    self.halt = Some(Halt::OutOfBounds(pa));
                    return Err(Exception::InstructionAccessFault);
                }
                match bus.load(pa, 32) {
                    Ok(v) => Ok(v as u32),
                    Err(e) => Err(e),
                }
            },
            Err(e) => Err(e),
        }
    }

    /// The page fault an access of kind `acc` at `va` raises.
    pub fn page_fault(acc: AccessMode, va: u64) -> (e: Exception)
        ensures
            e == page_fault(acc, va),
    {
        match acc {
            AccessMode::Fetch => Exception::InstructionPageFault(va as u32),
            AccessMode::Load => Exception::LoadPageFault(va as u32),
            AccessMode::Store => Exception::StoreAMOPageFault(va as u32),
        }
    }
}


/// A level-0 leaf maps the 4 KiB page: when the walk reaches level 0 and the entry it reads
/// there is a valid, readable-or-executable leaf that permits the access and already has its
/// accessed (and, for a store, dirty) bit set, the translation is the entry's physical page
/// number (bits 53..10) followed by the page offset of `va`, and memory is left as it was.
pub proof fn lemma_walk_level0_leaf(
    c: CpuState,
    b: BusState,
    va: u64,
    acc: AccessMode,
    a: u64,
    key: (u64, u64, u64),
    pte: u64,
)
    requires
        b.mem_access_defined((a + ((va >> 12u64) & 0x1ff) * 8) as u64, 64),
        b.load_spec((a + ((va >> 12u64) & 0x1ff) * 8) as u64, 64).0 == Ok::<u64, Exception>(pte),
        bit_spec(pte, 0) == 1,
        bit_spec(pte, 1) == 1 || bit_spec(pte, 3) == 1,
        !(bit_spec(pte, 1) == 0 && bit_spec(pte, 2) == 1),
        acc == AccessMode::Fetch ==> bit_spec(pte, 3) == 1,
        acc == AccessMode::Load ==> bit_spec(pte, 1) == 1,
        acc == AccessMode::Store ==> bit_spec(pte, 2) == 1,
        c.mode == U_MODE ==> bit_spec(pte, 4) == 1,
        bit_spec(pte, 6) == 1,
        acc == AccessMode::Store ==> bit_spec(pte, 7) == 1,
    ensures
        walk_spec(c, b, va, acc, a, 0, key).0 == Ok::<u64, Exception>(
            (((pte >> 10u64) & 0xfff_ffff_ffff) << 12u64) | (va & 0xfff),
        ),
        walk_spec(c, b, va, acc, a, 0, key).2 == b,
{
}

/// A valid entry that is not a leaf (no read, write or execute permission) above level 0
/// sends the walk on to the next level, to the table at the entry's physical page number
/// (bits 53..10) times the page size, indexed by the next virtual page number field.
pub proof fn lemma_walk_pointer(
    c: CpuState,
    b: BusState,
    va: u64,
    acc: AccessMode,
    a: u64,
    level: int,
    key: (u64, u64, u64),
    pte: u64,
)
    requires
        level == 1 || level == 2,
        b.mem_access_defined(
            (a + (if level == 1 { (va >> 21u64) & 0x1ff } else { (va >> 30u64) & 0x1ff }) * 8) as u64,
            64,
        ),
        b.load_spec(
            (a + (if level == 1 { (va >> 21u64) & 0x1ff } else { (va >> 30u64) & 0x1ff }) * 8) as u64,
            64,
        ).0 == Ok::<u64, Exception>(pte),
        bit_spec(pte, 0) == 1,
        bit_spec(pte, 1) == 0,
        bit_spec(pte, 2) == 0,
        bit_spec(pte, 3) == 0,
    ensures
        walk_spec(c, b, va, acc, a, level, key) == walk_spec(
            c,
            b,
            va,
            acc,
            (((pte >> 10u64) & 0xfff_ffff_ffff) * 4096) as u64,
            level - 1,
            key,
        ),
{
}

/// With Sv39 selected in `satp` (mode 8) outside machine mode, a canonical address that
/// misses the translation cache is translated by walking from the root table at `satp`'s
/// physical page number (bits 43..0) times the page size, starting at level 2, and the walk
/// caches its result under the root, the address-space identifier (bits 59..44) and the
/// virtual page number.
pub proof fn lemma_translate_walks_from_root(c: CpuState, b: BusState, va: u64, acc: AccessMode)
    requires
        c.mode != M_MODE,
        (c.csr[SATP as int] >> 60u64) & 0xf == 8,
        canonical(va),
        !c.tlb.contains_key(
            (c.csr[SATP as int] & 0xfff_ffff_ffff, (c.csr[SATP as int] >> 44u64) & 0xffff, va >> 12u64),
        ),
    ensures
        translate_spec(c, b, va, acc) == walk_spec(
            c,
            b,
            va,
            acc,
            ((c.csr[SATP as int] & 0xfff_ffff_ffff) * 4096) as u64,
            2,
            (c.csr[SATP as int] & 0xfff_ffff_ffff, (c.csr[SATP as int] >> 44u64) & 0xffff, va >> 12u64),
        ),
{
}


/// Addresses that are not translated: instruction fetches in machine mode, loads and stores in
/// machine mode without MPRV, and every access when `satp` selects bare addressing (mode 0)
/// use the virtual address as the physical one and change nothing. A cached translation is
/// used as it is: the cached physical page followed by the page offset of `va`.
pub proof fn lemma_translate_direct(c: CpuState, b: BusState, va: u64, acc: AccessMode)
    ensures
        ({
            let satp = c.csr[SATP as int];
            let key = (satp & 0xfff_ffff_ffff, (satp >> 44u64) & 0xffff, va >> 12u64);
            let bypass = (acc == AccessMode::Fetch && c.mode == M_MODE) || (acc != AccessMode::Fetch
                && c.mode == M_MODE && field_get(c.csr[MSTATUS as int], MASK_MPRV, BIT_MPRV) == 0);
            &&& bypass ==> translate_spec(c, b, va, acc) == (Ok::<u64, Exception>(va), c, b)
            &&& !bypass && (satp >> 60u64) & 0xf == 0 ==> translate_spec(c, b, va, acc) == (
                Ok::<u64, Exception>(va),
                c,
                b,
            )
            &&& !bypass && (satp >> 60u64) & 0xf == 8 && canonical(va) && c.tlb.contains_key(key)
                ==> translate_spec(c, b, va, acc) == (
                Ok::<u64, Exception>((c.tlb[key] << 12u64) | (va & 0xfff)),
                c,
                b,
            )
            &&& !bypass && (satp >> 60u64) & 0xf != 0 && (satp >> 60u64) & 0xf != 8
                ==> translate_spec(c, b, va, acc).0 == Err::<u64, Exception>(page_fault(acc, va))
        }),
{
}


/// Permissions are enforced at the leaf: an entry that is not valid, or is writable but not
/// readable, faults; a valid leaf faults for a fetch without execute permission, a load
/// without read permission, a store without write permission, and any user-mode access to a
/// page without the user bit. Such a fault leaves memory alone.
pub proof fn lemma_walk_faults(
    c: CpuState,
    b: BusState,
    va: u64,
    acc: AccessMode,
    a: u64,
    level: int,
    key: (u64, u64, u64),
    pte: u64,
)
    requires
        0 <= level <= 2,
        b.mem_access_defined((a + vpn_spec(va, level) * 8) as u64, 64),
        b.load_spec((a + vpn_spec(va, level) * 8) as u64, 64).0 == Ok::<u64, Exception>(pte),
        ({
            let v = bit_spec(pte, 0);
            let r = bit_spec(pte, 1);
            let w = bit_spec(pte, 2);
            let x = bit_spec(pte, 3);
            let u = bit_spec(pte, 4);
            ||| v == 0
            ||| (r == 0 && w == 1)
            ||| (v == 1 && (r == 1 || x == 1) && (
                (acc == AccessMode::Fetch && x == 0)
                || (acc == AccessMode::Load && r == 0)
                || (acc == AccessMode::Store && w == 0)
                || (c.mode == U_MODE && u == 0)))
        }),
    ensures
        walk_spec(c, b, va, acc, a, level, key).0 == Err::<u64, Exception>(page_fault(acc, va)),
        walk_spec(c, b, va, acc, a, level, key).2 == b,
{
}

} // verus!
