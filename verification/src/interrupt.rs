use vstd::prelude::*;

verus! {

/// Bit 63 of `mcause`/`scause`: set for interrupts, clear for exceptions.
pub const INTERRUPT_BIT: u64 = 0x8000_0000_0000_0000;

/// Asynchronous interrupts a RISC-V hart can take.
#[derive(Clone, Copy, Debug, PartialEq, Eq, Structural)]
pub enum Interrupt {
    SupervisorSoftwareInterrupt,
    MachineSoftwareInterrupt,
    SupervisorTimerInterrupt,
    MachineTimerInterrupt,
    SupervisorExternalInterrupt,
    MachineExternalInterrupt,
}

/// The cause code of an interrupt.
pub open spec fn interrupt_code(i: Interrupt) -> u64 {
    match i {
        Interrupt::SupervisorSoftwareInterrupt => 1,
        Interrupt::MachineSoftwareInterrupt => 3,
        Interrupt::SupervisorTimerInterrupt => 5,
        Interrupt::MachineTimerInterrupt => 7,
        Interrupt::SupervisorExternalInterrupt => 9,
        Interrupt::MachineExternalInterrupt => 11,
    }
}

/// The bit an interrupt occupies in `mip`/`mie`, together with the interrupt bit.
pub open spec fn interrupt_bit_code(i: Interrupt) -> u64 {
    INTERRUPT_BIT | (1u64 << interrupt_code(i))
}

impl Interrupt {
    /// The cause code of this interrupt.
    pub fn code(&self) -> (c: u64)
        ensures
            c == interrupt_code(*self),
    {
        match self {
            Interrupt::SupervisorSoftwareInterrupt => 1,
            Interrupt::MachineSoftwareInterrupt => 3,
            Interrupt::SupervisorTimerInterrupt => 5,
            Interrupt::MachineTimerInterrupt => 7,
            Interrupt::SupervisorExternalInterrupt => 9,
            Interrupt::MachineExternalInterrupt => 11,
        }
    }

    /// The interrupt bit together with this interrupt's bit in `mip`/`mie`.
    pub fn bit_code(&self) -> (b: u64)
        ensures
            b == interrupt_bit_code(*self),
    {
        INTERRUPT_BIT | (1u64 << self.code())
    }
}

/// Two interrupts with the same code are the same interrupt.
pub proof fn lemma_interrupt_code_injective(a: Interrupt, b: Interrupt)
    ensures
        interrupt_code(a) == interrupt_code(b) <==> a == b,
{
}

/// An interrupt that becomes pending once a given cycle is reached.
#[derive(Clone, Copy, Debug)]
pub struct DelayedInterrupt {
    pub interrupt: Interrupt,
    pub cycle: u64,
}

/// Synchronous exceptions a RISC-V hart can raise, with the faulting value where one is kept.
#[derive(Debug, Clone, Copy, PartialEq, Eq, Structural)]
pub enum Exception {
    InstructionAddressMissaligned,
    InstructionAccessFault,
    IllegalInstruction(u32),
    BreakPoint,
    LoadAddressMissaligned,
    LoadAccessFault,
    StoreAMOAddressMisaligned,
    StoreAMOAccessFault,
    EnvironmentalCallFromUMode,
    EnvironmentalCallFromSMode,
    EnvironmentalCallFromMMode,
    InstructionPageFault(u32),
    LoadPageFault(u32),
    StoreAMOPageFault(u32),
}

/// The cause code of an exception.
pub open spec fn exception_code(e: Exception) -> u64 {
    match e {
        Exception::InstructionAddressMissaligned => 0,
        Exception::InstructionAccessFault => 1,
        Exception::IllegalInstruction(_) => 2,
        Exception::BreakPoint => 3,
        Exception::LoadAddressMissaligned => 4,
        Exception::LoadAccessFault => 5,
        Exception::StoreAMOAddressMisaligned => 6,
        Exception::StoreAMOAccessFault => 7,
        Exception::EnvironmentalCallFromUMode => 8,
        Exception::EnvironmentalCallFromSMode => 9,
        Exception::EnvironmentalCallFromMMode => 11,
        Exception::InstructionPageFault(_) => 12,
        Exception::LoadPageFault(_) => 13,
        Exception::StoreAMOPageFault(_) => 15,
    }
}

/// The value written to `mtval`/`stval` when an exception is taken.
pub open spec fn exception_tval(e: Exception) -> u64 {
    match e {
        Exception::InstructionPageFault(v) => v as u64,
        Exception::LoadPageFault(v) => v as u64,
        Exception::StoreAMOPageFault(v) => v as u64,
        _ => 0,
    }
}

impl Exception {
    /// The cause code of this exception.
    pub fn code(&self) -> (c: u64)
        ensures
            c == exception_code(*self),
    {
        match self {
            Exception::InstructionAddressMissaligned => 0,
            Exception::InstructionAccessFault => 1,
            Exception::IllegalInstruction(_) => 2,
            Exception::BreakPoint => 3,
            Exception::LoadAddressMissaligned => 4,
            Exception::LoadAccessFault => 5,
            Exception::StoreAMOAddressMisaligned => 6,
            Exception::StoreAMOAccessFault => 7,
            Exception::EnvironmentalCallFromUMode => 8,
            Exception::EnvironmentalCallFromSMode => 9,
            Exception::EnvironmentalCallFromMMode => 11,
            Exception::InstructionPageFault(_) => 12,
            Exception::LoadPageFault(_) => 13,
            Exception::StoreAMOPageFault(_) => 15,
        }
    }

    /// This exception's bit in `medeleg`.
    pub fn bit_code(&self) -> (b: u64)
        ensures
            b == 1u64 << exception_code(*self),
    {
        1u64 << self.code()
    }

    /// The value this exception leaves in `mtval`/`stval`.
    pub fn tval(&self) -> (v: u64)
        ensures
            v == exception_tval(*self),
    {
        match self {
            Exception::InstructionPageFault(v) => *v as u64,
            Exception::LoadPageFault(v) => *v as u64,
            Exception::StoreAMOPageFault(v) => *v as u64,
            _ => 0,
        }
    }
}

/// The position of an interrupt in increasing order of cause code.
pub open spec fn interrupt_index(i: Interrupt) -> int {
    match i {
        Interrupt::SupervisorSoftwareInterrupt => 0,
        Interrupt::MachineSoftwareInterrupt => 1,
        Interrupt::SupervisorTimerInterrupt => 2,
        Interrupt::MachineTimerInterrupt => 3,
        Interrupt::SupervisorExternalInterrupt => 4,
        Interrupt::MachineExternalInterrupt => 5,
    }
}

/// The interrupt at position `k` in increasing order of cause code.
pub open spec fn interrupt_at(k: int) -> Interrupt {
    if k == 0 {
        Interrupt::SupervisorSoftwareInterrupt
    } else if k == 1 {
        Interrupt::MachineSoftwareInterrupt
    } else if k == 2 {
        Interrupt::SupervisorTimerInterrupt
    } else if k == 3 {
        Interrupt::MachineTimerInterrupt
    } else if k == 4 {
        Interrupt::SupervisorExternalInterrupt
    } else {
        Interrupt::MachineExternalInterrupt
    }
}

/// Ordering interrupts by position is ordering them by cause code.
pub proof fn lemma_interrupt_order(a: int, b: int)
    requires
        0 <= a < b < 6,
    ensures
        interrupt_code(interrupt_at(a)) < interrupt_code(interrupt_at(b)),
        interrupt_index(interrupt_at(a)) == a,
{
}

/// The interrupt at position `k` in increasing order of cause code.
pub fn interrupt_by_index(k: usize) -> (i: Interrupt)
    requires
        k < 6,
    ensures
        i == interrupt_at(k as int),
        interrupt_index(i) == k,
{
    if k == 0 {
        Interrupt::SupervisorSoftwareInterrupt
    } else if k == 1 {
        Interrupt::MachineSoftwareInterrupt
    } else if k == 2 {
        Interrupt::SupervisorTimerInterrupt
    } else if k == 3 {
        Interrupt::MachineTimerInterrupt
    } else if k == 4 {
        Interrupt::SupervisorExternalInterrupt
    } else {
        Interrupt::MachineExternalInterrupt
    }
}

fn index_of_interrupt(i: Interrupt) -> (k: usize)
    ensures
        k == interrupt_index(i),
        interrupt_at(k as int) == i,
{
    match i {
        Interrupt::SupervisorSoftwareInterrupt => 0,
        Interrupt::MachineSoftwareInterrupt => 1,
        Interrupt::SupervisorTimerInterrupt => 2,
        Interrupt::MachineTimerInterrupt => 3,
        Interrupt::SupervisorExternalInterrupt => 4,
        Interrupt::MachineExternalInterrupt => 5,
    }
}

/// The set of pending interrupts. It is walked in increasing order of cause code.
#[derive(Clone, Copy)]
pub struct InterruptList {
    pub pending: [bool; 6],
}

impl View for InterruptList {
    type V = Set<Interrupt>;

    open spec fn view(&self) -> Set<Interrupt> {
        Set::new(|i: Interrupt| self.pending@[interrupt_index(i)])
    }
}

impl InterruptList {
    /// An empty set.
    pub fn new() -> (l: InterruptList)
        ensures
            l@ == Set::<Interrupt>::empty(),
    {
        let l = InterruptList { pending: [false; 6] };
        assert(l@ =~= Set::<Interrupt>::empty());
        l
    }

    /// Whether `i` is pending.
    pub fn contains(&self, i: Interrupt) -> (b: bool)
        ensures
            b == self@.contains(i),
    {
        self.pending[index_of_interrupt(i)]
    }

    /// Whether the interrupt at position `k` (in code order) is pending.
    pub fn contains_index(&self, k: usize) -> (b: bool)
        requires
            k < 6,
        ensures
            b == self@.contains(interrupt_at(k as int)),
    {
        self.pending[k]
    }

    /// Whether nothing is pending.
    pub fn is_empty(&self) -> (b: bool)
        ensures
            b == (self@ == Set::<Interrupt>::empty()),
    {
        let b = !self.pending[0] && !self.pending[1] && !self.pending[2] && !self.pending[3]
            && !self.pending[4] && !self.pending[5];
        if !b {
            if self.pending[0] {
                assert(self@.contains(interrupt_at(0)));
            } else if self.pending[1] {
                assert(self@.contains(interrupt_at(1)));
            } else if self.pending[2] {
                assert(self@.contains(interrupt_at(2)));
            } else if self.pending[3] {
                assert(self@.contains(interrupt_at(3)));
            } else if self.pending[4] {
                assert(self@.contains(interrupt_at(4)));
            } else {
                assert(self@.contains(interrupt_at(5)));
            }
        } else {
            assert(self@ =~= Set::<Interrupt>::empty());
        }
        b
    }

    /// Makes `i` pending.
    pub fn insert(&mut self, i: Interrupt)
        ensures
            final(self)@ == old(self)@.insert(i),
    {
        let k = index_of_interrupt(i);
        self.pending[k] = true;
        assert(self@ =~= old(self)@.insert(i));
    }

    /// The pending interrupts in increasing order of cause code.
    pub fn to_vec(&self) -> (v: Vec<Interrupt>)
        ensures
            v@.to_set() == self@,
            forall|a: int, b: int|
                0 <= a < b < v@.len() ==> interrupt_code(v@[a]) < interrupt_code(v@[b]),
    {
        let mut v: Vec<Interrupt> = Vec::new();
        let mut k: usize = 0;
        while k < 6
            invariant
                k <= 6,
                forall|x: Interrupt|
                    #[trigger] v@.contains(x) <==> (interrupt_index(x) < k && self@.contains(x)),
                forall|a: int|
                    0 <= a < v@.len() ==> interrupt_index(#[trigger] v@[a]) < k,
                forall|a: int, b: int|
                    0 <= a < b < v@.len() ==> interrupt_index(v@[a]) < interrupt_index(v@[b]),
            decreases 6 - k,
        {
            if self.pending[k] {
                let i = interrupt_by_index(k);
                assert(self@.contains(i));
                let ghost old_v = v@;
                v.push(i);
                assert forall|x: Interrupt| #[trigger] v@.contains(x) <==> (interrupt_index(x)
                    < k + 1 && self@.contains(x)) by {
                    if v@.contains(x) && x != i {
                        let j = choose|j: int| 0 <= j < v@.len() && v@[j] == x;
                        assert(old_v[j] == x);
                        assert(old_v.contains(x));
                    }
                    if interrupt_index(x) < k + 1 && self@.contains(x) {
                        if interrupt_index(x) == k {
                            assert(x == i);
                            assert(v@[v@.len() - 1] == x);
                        } else {
                            assert(old_v.contains(x));
                            let j = choose|j: int| 0 <= j < old_v.len() && old_v[j] == x;
                            assert(v@[j] == x);
                        }
                    }
                }
            } else {
                assert forall|x: Interrupt| #[trigger] v@.contains(x) <==> (interrupt_index(x)
                    < k + 1 && self@.contains(x)) by {
                    if interrupt_index(x) == k {
                        assert(self.pending@[interrupt_index(x)] == self@.contains(x));
                    }
                }
            }
            k = k + 1;
        }
        assert(v@.to_set() =~= self@) by {
            assert forall|x: Interrupt| self@.contains(x) implies interrupt_index(x) < 6 by {}
        }
        assert forall|a: int, b: int| 0 <= a < b < v@.len() implies interrupt_code(v@[a])
            < interrupt_code(v@[b]) by {
            let ia = interrupt_index(v@[a]);
            let ib = interrupt_index(v@[b]);
            assert(v@[a] == interrupt_at(ia));
            assert(v@[b] == interrupt_at(ib));
            lemma_interrupt_order(ia, ib);
        }
        v
    }

    /// The set of the members of `v`.
    pub fn from_slice(v: &[Interrupt]) -> (l: InterruptList)
        ensures
            l@ == v@.to_set(),
    {
        let mut l = InterruptList::new();
        let mut k: usize = 0;
        while k < v.len()
            invariant
                k <= v@.len(),
                l@ == v@.subrange(0, k as int).to_set(),
            decreases v@.len() - k,
        {
            l.insert(v[k]);
            assert(v@.subrange(0, k + 1) =~= v@.subrange(0, k as int).push(v@[k as int]));
            proof {
                v@.subrange(0, k as int).lemma_push_to_set_commute(v@[k as int]);
            }
            k = k + 1;
        }
        assert(v@.subrange(0, k as int) =~= v@);
        l
    }

    /// Makes `i` no longer pending.
    pub fn remove(&mut self, i: Interrupt)
        ensures
            final(self)@ == old(self)@.remove(i),
    {
        let k = index_of_interrupt(i);
        self.pending[k] = false;
        assert(self@ =~= old(self)@.remove(i));
    }
}


/// The interrupt cause codes, as the privileged architecture numbers them (supervisor and
/// machine software 1 and 3, timer 5 and 7, external 9 and 11), and each interrupt's mask is
/// its code's bit together with the interrupt bit (bit 63).
pub proof fn lemma_interrupt_codes(i: Interrupt)
    ensures
        interrupt_code(i) == match i {
            Interrupt::SupervisorSoftwareInterrupt => 1u64,
            Interrupt::MachineSoftwareInterrupt => 3,
            Interrupt::SupervisorTimerInterrupt => 5,
            Interrupt::MachineTimerInterrupt => 7,
            Interrupt::SupervisorExternalInterrupt => 9,
            Interrupt::MachineExternalInterrupt => 11,
        },
        interrupt_bit_code(i) == 0x8000_0000_0000_0000u64 | (1u64 << interrupt_code(i)),
{
}

} // verus!
