use crate::interrupt::{Exception, Interrupt, InterruptList};
use vstd::prelude::*;

verus! {

/// Size of the PLIC register window.
pub const PLIC_SIZE: u64 = 0x4000000;
/// Number of 32-bit registers the PLIC keeps (`PLIC_SIZE / 8`).
pub const PLIC_REGS: u64 = 0x800000;

pub const INTERRUPT_SOURCE_PRIORITIES: u64 = 0x000000;
pub const INTERRUPT_PENDING_BITS: u64 = 0x001000;
pub const INTERRUPT_ENABLES: u64 = 0x002000;
pub const PRIORITY_THRESHOLDS: u64 = 0x200000;
pub const CLAIM_COMPLETE: u64 = 0x201004;

/// Index of the pending-bits register (`INTERRUPT_PENDING_BITS / 4`).
pub const PENDING_INDEX: usize = 0x400;

/// The interrupt sources wired to the PLIC.
#[derive(Clone, Copy, Debug, PartialEq, Eq, Structural)]
pub enum ExternalInterrupt {
    VirtioDiskIO,
    UartInput,
}

/// The source number of an external interrupt.
pub open spec fn external_id(e: ExternalInterrupt) -> u64 {
    match e {
        ExternalInterrupt::VirtioDiskIO => 1,
        ExternalInterrupt::UartInput => 10,
    }
}

/// The pending bit of an external interrupt.
pub open spec fn external_bit(e: ExternalInterrupt) -> u32 {
    match e {
        ExternalInterrupt::VirtioDiskIO => 0x2,
        ExternalInterrupt::UartInput => 0x400,
    }
}

impl ExternalInterrupt {
    /// The source number of this interrupt.
    pub fn id(&self) -> (i: u64)
        ensures
            i == external_id(*self),
    {
        match self {
            ExternalInterrupt::VirtioDiskIO => 1,
            ExternalInterrupt::UartInput => 10,
        }
    }
}

fn bit_of(e: ExternalInterrupt) -> (b: u32)
    ensures
        b == external_bit(e),
        b == 1u32 << external_id(e),
{
    let id = e.id();
    assert(1u32 << 1u64 == 0x2u32) by (bit_vector);
    assert(1u32 << 10u64 == 0x400u32) by (bit_vector);
    1u32 << id
}

/// The members of `set` in increasing order of source number.
pub open spec fn sorted_members(set: Set<ExternalInterrupt>) -> Seq<ExternalInterrupt> {
    (if set.contains(ExternalInterrupt::VirtioDiskIO) {
        seq![ExternalInterrupt::VirtioDiskIO]
    } else {
        Seq::empty()
    }) + (if set.contains(ExternalInterrupt::UartInput) {
        seq![ExternalInterrupt::UartInput]
    } else {
        Seq::empty()
    })
}

/// Listing a set of external interrupts in order and collecting the list again gives the set.
pub proof fn lemma_sorted_members(set: Set<ExternalInterrupt>)
    ensures
        sorted_members(set).to_set() == set,
        sorted_members(set).no_duplicates(),
{
    let v = sorted_members(set);
    assert(v.to_set() =~= set) by {
        assert forall|e: ExternalInterrupt| set.contains(e) implies v.to_set().contains(e) by {
            match e {
                ExternalInterrupt::VirtioDiskIO => assert(v[0] == e),
                ExternalInterrupt::UartInput => assert(v[v.len() - 1] == e),
            }
        }
    }
}

/// The set of external interrupts that are pending and not yet claimed. It is walked in
/// increasing order of source number.
#[derive(Clone, Copy)]
pub struct ExternalInterruptSet {
    pub virtio: bool,
    pub uart: bool,
}

impl View for ExternalInterruptSet {
    type V = Set<ExternalInterrupt>;

    open spec fn view(&self) -> Set<ExternalInterrupt> {
        Set::new(
            |e: ExternalInterrupt|
                match e {
                    ExternalInterrupt::VirtioDiskIO => self.virtio,
                    ExternalInterrupt::UartInput => self.uart,
                },
        )
    }
}

impl ExternalInterruptSet {
    /// The empty set.
    pub fn new() -> (s: ExternalInterruptSet)
        ensures
            s@ == Set::<ExternalInterrupt>::empty(),
    {
        let s = ExternalInterruptSet { virtio: false, uart: false };
        assert(s@ =~= Set::<ExternalInterrupt>::empty());
        s
    }

    /// Adds `e`.
    pub fn insert(&mut self, e: ExternalInterrupt)
        ensures
            final(self)@ == old(self)@.insert(e),
    {
        match e {
            ExternalInterrupt::VirtioDiskIO => self.virtio = true,
            ExternalInterrupt::UartInput => self.uart = true,
        }
        assert(self@ =~= old(self)@.insert(e));
    }

    /// Removes `e`.
    pub fn remove(&mut self, e: ExternalInterrupt)
        ensures
            final(self)@ == old(self)@.remove(e),
    {
        match e {
            ExternalInterrupt::VirtioDiskIO => self.virtio = false,
            ExternalInterrupt::UartInput => self.uart = false,
        }
        assert(self@ =~= old(self)@.remove(e));
    }

    /// Whether the set is empty.
    pub fn is_empty(&self) -> (b: bool)
        ensures
            b == (self@ == Set::<ExternalInterrupt>::empty()),
    {
        if self.virtio {
            assert(self@.contains(ExternalInterrupt::VirtioDiskIO));
        }
        if self.uart {
            assert(self@.contains(ExternalInterrupt::UartInput));
        }
        if !self.virtio && !self.uart {
            assert(self@ =~= Set::<ExternalInterrupt>::empty());
        }
        !self.virtio && !self.uart
    }

    /// The members in increasing order of source number.
    pub fn to_vec(&self) -> (v: Vec<ExternalInterrupt>)
        ensures
            v@ == sorted_members(self@),
            v@.to_set() == self@,
            v@.no_duplicates(),
    {
        let mut v = Vec::new();
        if self.virtio {
            v.push(ExternalInterrupt::VirtioDiskIO);
        }
        if self.uart {
            v.push(ExternalInterrupt::UartInput);
        }
        assert(v@ =~= sorted_members(self@));
        proof {
            lemma_sorted_members(self@);
        }
        assert(v@.to_set() =~= self@) by {
            if self.virtio {
                assert(v@[0] == ExternalInterrupt::VirtioDiskIO);
            }
            if self.uart {
                assert(v@[v@.len() - 1] == ExternalInterrupt::UartInput);
            }
        }
        v
    }

    /// The set of the members of `v`.
    pub fn from_slice(v: &[ExternalInterrupt]) -> (s: ExternalInterruptSet)
        ensures
            s@ == v@.to_set(),
    {
        let mut s = ExternalInterruptSet::new();
        let mut k: usize = 0;
        while k < v.len()
            invariant
                k <= v@.len(),
                s@ == v@.subrange(0, k as int).to_set(),
            decreases v@.len() - k,
        {
            s.insert(v[k]);
            assert(v@.subrange(0, k + 1) =~= v@.subrange(0, k as int).push(v@[k as int]));
            proof {
                v@.subrange(0, k as int).lemma_push_to_set_commute(v@[k as int]);
            }
            k = k + 1;
        }
        assert(v@.subrange(0, k as int) =~= v@);
        s
    }
}

/// The saved PLIC.
pub struct PlicSnapshot {
    pub start_addr: u64,
    pub regs: Vec<u32>,
    pub external_interrupt_list: Vec<ExternalInterrupt>,
}

/// Whether `s` saves the PLIC `p`: its place, its registers and the interrupts waiting to be
/// claimed, each once.
pub open spec fn plic_snapshot_of(s: PlicSnapshot, p: PlicState) -> bool {
    &&& s.start_addr == p.start_addr
    &&& s.regs@ == p.regs
    &&& s.external_interrupt_list@ == sorted_members(p.list)
}

/// The PLIC restored from `s`: nothing posted.
pub open spec fn plic_restored(s: PlicSnapshot) -> PlicState {
    PlicState {
        start_addr: s.start_addr,
        regs: s.regs@,
        pending: Seq::empty(),
        list: s.external_interrupt_list@.to_set(),
    }
}

/// Saving and restoring a PLIC keeps its place, registers and claimable interrupts and drops
/// only what was posted and not yet processed: the restored PLIC answers every read, claims
/// included, as the saved one does, and ends in the same state but for what was posted; and
/// saving it again gives the same snapshot.
pub proof fn lemma_plic_snapshot_roundtrip(p: PlicState, s: PlicSnapshot, addr: u64, ints: Set<Interrupt>)
    requires
        plic_snapshot_of(s, p),
    ensures
        plic_restored(s) == (PlicState { pending: Seq::empty(), ..p }),
        plic_restored(s).load_spec(addr, ints).0 == p.load_spec(addr, ints).0,
        plic_restored(s).load_spec(addr, ints).1 == (PlicState {
            pending: Seq::empty(),
            ..p.load_spec(addr, ints).1
        }),
        plic_restored(s).load_spec(addr, ints).2 == p.load_spec(addr, ints).2,
        forall|s2: PlicSnapshot|
            #[trigger] plic_snapshot_of(s2, plic_restored(s)) ==> s2.start_addr == s.start_addr
                && s2.regs@ == s.regs@ && s2.external_interrupt_list@ == s.external_interrupt_list@,
{
    lemma_sorted_members(p.list);
    assert(plic_restored(s) =~= (PlicState { pending: Seq::empty(), ..p }));
    assert(plic_restored(s).load_spec(addr, ints).1 =~= (PlicState {
        pending: Seq::empty(),
        ..p.load_spec(addr, ints).1
    }));
}

/// The platform-level interrupt controller. Devices post their interrupts to `pending_queue`;
/// once processed they stay in `external_interrupt_list` until the guest claims them.
pub struct Plic {
    pub start_addr: u64,
    pub regs: Vec<u32>,
    pub pending_queue: Vec<ExternalInterrupt>,
    pub external_interrupt_list: ExternalInterruptSet,
}

/// The state of a PLIC.
#[verifier::ext_equal]
pub struct PlicState {
    pub start_addr: u64,
    pub regs: Seq<u32>,
    pub pending: Seq<ExternalInterrupt>,
    pub list: Set<ExternalInterrupt>,
}

impl View for Plic {
    type V = PlicState;

    open spec fn view(&self) -> PlicState {
        PlicState {
            start_addr: self.start_addr,
            regs: self.regs@,
            pending: self.pending_queue@,
            list: self.external_interrupt_list@,
        }
    }
}

/// The pending bits of all interrupts in `s`.
pub open spec fn pending_bits(s: Seq<ExternalInterrupt>) -> u32
    decreases s.len(),
{
    if s.len() == 0 {
        0
    } else {
        pending_bits(s.drop_last()) | external_bit(s.last())
    }
}

/// The interrupt a claim returns: the one with the highest priority, the later one on a tie.
pub open spec fn claim_choice(list: Set<ExternalInterrupt>, regs: Seq<u32>) -> Option<
    ExternalInterrupt,
> {
    let v = list.contains(ExternalInterrupt::VirtioDiskIO);
    let u = list.contains(ExternalInterrupt::UartInput);
    if v && u {
        if regs[1] <= regs[10] {
            Some(ExternalInterrupt::UartInput)
        } else {
            Some(ExternalInterrupt::VirtioDiskIO)
        }
    } else if u {
        Some(ExternalInterrupt::UartInput)
    } else if v {
        Some(ExternalInterrupt::VirtioDiskIO)
    } else {
        None
    }
}

impl PlicState {
    /// The register file has its full size and the window does not wrap around.
    pub open spec fn wf(self) -> bool {
        &&& self.regs.len() == PLIC_REGS
        &&& self.start_addr + PLIC_SIZE <= u64::MAX
    }

    /// Whether `addr` falls in the PLIC window.
    pub open spec fn accessible(self, addr: u64) -> bool {
        self.start_addr <= addr < self.start_addr + PLIC_SIZE
    }

    /// A read at `addr` lands on a register the PLIC keeps (or on the claim register).
    pub open spec fn load_defined(self, addr: u64) -> bool {
        let rel = addr - self.start_addr;
        rel == CLAIM_COMPLETE || rel / 4 < self.regs.len()
    }

    /// What a read at `addr` returns, the PLIC after it and the hart's pending interrupts
    /// after it. Reading the claim register takes the chosen interrupt out of the list and
    /// clears its pending bit; once nothing is left the supervisor external interrupt is no
    /// longer pending.
    pub open spec fn load_spec(self, addr: u64, interrupts: Set<Interrupt>) -> (
        Result<u64, Exception>,
        PlicState,
        Set<Interrupt>,
    ) {
        let rel = addr - self.start_addr;
        if rel == CLAIM_COMPLETE {
            match claim_choice(self.list, self.regs) {
                Some(e) => {
                    let list = self.list.remove(e);
                    let regs = self.regs.update(
                        PENDING_INDEX as int,
                        self.regs[PENDING_INDEX as int] & !external_bit(e),
                    );
                    let ints = if list == Set::<ExternalInterrupt>::empty() {
                        interrupts.remove(Interrupt::SupervisorExternalInterrupt)
                    } else {
                        interrupts
                    };
                    (Ok(external_id(e)), PlicState { list, regs, ..self }, ints)
                },
                None => (Ok(0), self, interrupts),
            }
        } else {
            (Ok(self.regs[rel / 4] as u64), self, interrupts)
        }
    }

    /// The PLIC and the hart's pending interrupts after the posted interrupts are processed.
    pub open spec fn process_spec(self, interrupts: Set<Interrupt>) -> (PlicState, Set<Interrupt>) {
        if self.pending.len() == 0 {
            (self, interrupts)
        } else {
            (
                PlicState {
                    regs: self.regs.update(
                        PENDING_INDEX as int,
                        self.regs[PENDING_INDEX as int] | pending_bits(self.pending),
                    ),
                    list: self.list.union(self.pending.to_set()),
                    pending: Seq::empty(),
                    ..self
                },
                interrupts.insert(Interrupt::SupervisorExternalInterrupt),
            )
        }
    }
}

/// A claim takes one claimable interrupt: when the list is not empty it returns the source
/// number of an interrupt in it and removes that interrupt from the list, and the supervisor
/// external interrupt stays pending exactly while the list is not empty; an empty list
/// answers 0 and changes nothing.
pub proof fn lemma_plic_claim(p: PlicState, ints: Set<Interrupt>)
    requires
        p.wf(),
    ensures
        ({
            let (r, p1, i1) = p.load_spec((p.start_addr + CLAIM_COMPLETE) as u64, ints);
            &&& p.list.is_empty() ==> r == Ok::<u64, Exception>(0) && p1 == p && i1 == ints
            &&& !p.list.is_empty() ==> exists|e: ExternalInterrupt|
                #![trigger p.list.contains(e)]
                {
                    &&& p.list.contains(e)
                    &&& r == Ok::<u64, Exception>(external_id(e))
                    &&& p1.list == p.list.remove(e)
                    &&& (p1.list.is_empty() ==> i1 == ints.remove(
                        Interrupt::SupervisorExternalInterrupt,
                    ))
                    &&& (!p1.list.is_empty() ==> i1 == ints)
                }
        }),
{
    let (r, p1, i1) = p.load_spec((p.start_addr + CLAIM_COMPLETE) as u64, ints);
    if !p.list.is_empty() {
        let e = claim_choice(p.list, p.regs)->0;
        if !p.list.contains(ExternalInterrupt::VirtioDiskIO) && !p.list.contains(
            ExternalInterrupt::UartInput,
        ) {
            assert forall|x: ExternalInterrupt| !p.list.contains(x) by {
                match x {
                    ExternalInterrupt::VirtioDiskIO => {},
                    ExternalInterrupt::UartInput => {},
                }
            }
            assert(p.list =~= Set::<ExternalInterrupt>::empty());
        }
        assert(p.list.contains(e));
        if p1.list.is_empty() {
            assert(p1.list =~= Set::<ExternalInterrupt>::empty());
        } else {
            assert(p1.list != Set::<ExternalInterrupt>::empty());
        }
    } else {
        assert(p.list =~= Set::<ExternalInterrupt>::empty());
    }
}

/// A device interrupt reaches the guest: once posted and processed, the supervisor external
/// interrupt is pending and a claim returns the device's source number, after which nothing
/// is left to claim and the supervisor external interrupt is no longer pending.
pub proof fn lemma_plic_notify_claim(p: PlicState, ints: Set<Interrupt>, e: ExternalInterrupt)
    requires
        p.wf(),
        p.list.is_empty(),
        p.pending.len() == 0,
    ensures
        ({
            let (p2, i2) = (PlicState { pending: p.pending.push(e), ..p }).process_spec(ints);
            let (r, p3, i3) = p2.load_spec((p.start_addr + CLAIM_COMPLETE) as u64, i2);
            &&& i2.contains(Interrupt::SupervisorExternalInterrupt)
            &&& p2.list.contains(e)
            &&& r == Ok::<u64, Exception>(external_id(e))
            &&& p3.list.is_empty()
            &&& !i3.contains(Interrupt::SupervisorExternalInterrupt)
        }),
{
    let p1 = PlicState { pending: p.pending.push(e), ..p };
    let (p2, i2) = p1.process_spec(ints);
    assert(p1.pending.to_set() =~= set![e]) by {
        assert(p1.pending =~= seq![e]);
        assert(p1.pending.to_set().contains(e));
    }
    assert(p2.list =~= set![e]);
    let (r, p3, i3) = p2.load_spec((p.start_addr + CLAIM_COMPLETE) as u64, i2);
    assert(p3.list =~= Set::<ExternalInterrupt>::empty());
}

impl Plic {
    /// A PLIC at `start_addr` with all registers zero and nothing pending.
    pub fn new(start_addr: u64) -> (p: Plic)
        requires
            start_addr + PLIC_SIZE <= u64::MAX,
        ensures
            p@.wf(),
            p@.start_addr == start_addr,
            p@.regs == Seq::new(PLIC_REGS as nat, |i: int| 0u32),
            p@.pending == Seq::<ExternalInterrupt>::empty(),
            p@.list == Set::<ExternalInterrupt>::empty(),
    {
        let regs = vec![0u32; PLIC_REGS as usize];
        let p = Plic {
            start_addr,
            regs,
            pending_queue: Vec::new(),
            external_interrupt_list: ExternalInterruptSet::new(),
        };
        assert(p@.regs =~= Seq::new(PLIC_REGS as nat, |i: int| 0u32));
        p
    }

    /// Posts interrupt `id` from a device; it reaches the hart when pending interrupts are
    /// processed.
    pub fn notify(&mut self, id: ExternalInterrupt)
        ensures
            final(self)@ == (PlicState { pending: old(self)@.pending.push(id), ..old(self)@ }),
    {
        self.pending_queue.push(id);
        assert(self@ =~= (PlicState { pending: old(self)@.pending.push(id), ..old(self)@ }));
    }

    /// Moves the posted interrupts into the list of claimable interrupts, sets their pending
    /// bits, and makes the supervisor external interrupt pending on the hart.
    pub fn process_pending_interrupts(&mut self, interrupts: &mut InterruptList)
        requires
            old(self)@.wf(),
        ensures
            final(self)@.wf(),
            (final(self)@, final(interrupts)@) == old(self)@.process_spec(old(interrupts)@),
    {
        let ghost s0 = self@;
        let ghost i0 = interrupts@;
        let mut pending: Vec<ExternalInterrupt> = Vec::new();
        std::mem::swap(&mut pending, &mut self.pending_queue);
        proof {
            let x = s0.regs[PENDING_INDEX as int];
            assert(x | 0 == x) by (bit_vector);
            assert(pending_bits(pending@.subrange(0, 0)) == 0);
            assert(self.regs@ =~= s0.regs.update(PENDING_INDEX as int, x | 0));
            assert(pending@.subrange(0, 0).to_set() =~= Set::<ExternalInterrupt>::empty());
            assert(s0.list.union(Set::<ExternalInterrupt>::empty()) =~= s0.list);
        }
        let mut k: usize = 0;
        while k < pending.len()
            invariant
                k <= pending@.len(),
                pending@ == s0.pending,
                self.start_addr == s0.start_addr,
                self.pending_queue@ == Seq::<ExternalInterrupt>::empty(),
                self.regs@.len() == PLIC_REGS,
                self.regs@ == s0.regs.update(
                    PENDING_INDEX as int,
                    s0.regs[PENDING_INDEX as int] | pending_bits(pending@.subrange(0, k as int)),
                ),
                self.external_interrupt_list@ == s0.list.union(
                    pending@.subrange(0, k as int).to_set(),
                ),
                k == 0 ==> interrupts@ == i0,
                k > 0 ==> interrupts@ == i0.insert(Interrupt::SupervisorExternalInterrupt),
                s0.wf(),
            decreases pending@.len() - k,
        {
            let e = pending[k];
            interrupts.insert(Interrupt::SupervisorExternalInterrupt);
            let b = bit_of(e);
            let old_bits = self.regs[PENDING_INDEX];
            self.regs.set(PENDING_INDEX, old_bits | b);
            self.external_interrupt_list.insert(e);
            proof {
                let pre = pending@.subrange(0, k as int);
                let post = pending@.subrange(0, k + 1);
                assert(post.drop_last() =~= pre);
                assert(post.last() == e);
                assert(pending_bits(post) == pending_bits(pre) | external_bit(e));
                let x = s0.regs[PENDING_INDEX as int];
                let y = pending_bits(pre);
                let z = external_bit(e);
                assert((x | y) | z == x | (y | z)) by (bit_vector);
                assert(post =~= pre.push(e));
                pre.lemma_push_to_set_commute(e);
                assert(s0.list.union(pre.to_set()).insert(e) =~= s0.list.union(post.to_set()));
            }
            k = k + 1;
        }
        proof {
            assert(pending@.subrange(0, k as int) =~= pending@);
            if pending@.len() == 0 {
                assert(pending_bits(pending@) == 0);
                let x = s0.regs[PENDING_INDEX as int];
                assert(x | 0 == x) by (bit_vector);
                assert(self.regs@ =~= s0.regs);
                assert(pending@.to_set() =~= Set::<ExternalInterrupt>::empty());
                assert(self.external_interrupt_list@ =~= s0.list);
            }
        }
    }

    /// Whether `addr` falls in the PLIC window.
    pub fn is_accessible(&self, addr: u64) -> (b: bool)
        requires
            self@.wf(),
        ensures
            b == self@.accessible(addr),
    {
        (addr >= self.start_addr) && (addr < self.start_addr + PLIC_SIZE)
    }

    /// Whether a read at `addr` lands on a register the PLIC keeps (or on the claim register).
    pub fn is_load_defined(&self, addr: u64) -> (b: bool)
        requires
            self@.accessible(addr),
        ensures
            b == self@.load_defined(addr),
    {
        let rel = addr - self.start_addr;
        rel == CLAIM_COMPLETE || rel / 4 < self.regs.len() as u64
    }

    /// Reads a PLIC register; reading the claim register claims the chosen interrupt.
    pub fn load(&mut self, addr: u64, _size: u64, interrupts: &mut InterruptList) -> (r: Result<
        u64,
        Exception,
    >)
        requires
            old(self)@.wf(),
            old(self)@.accessible(addr),
            old(self)@.load_defined(addr),
        ensures
            final(self)@.wf(),
            (r, final(self)@, final(interrupts)@) == old(self)@.load_spec(addr, old(interrupts)@),
    {
        let relative_addr = addr - self.start_addr;
        if relative_addr == CLAIM_COMPLETE {
            let v = self.external_interrupt_list.virtio;
            let u = self.external_interrupt_list.uart;
            let choice = if v && u {
                if self.regs[1] <= self.regs[10] {
                    Some(ExternalInterrupt::UartInput)
                } else {
                    Some(ExternalInterrupt::VirtioDiskIO)
                }
            } else if u {
                Some(ExternalInterrupt::UartInput)
            } else if v {
                Some(ExternalInterrupt::VirtioDiskIO)
            } else {
                None
            };
            assert(self@.list.contains(ExternalInterrupt::VirtioDiskIO) == v);
            assert(self@.list.contains(ExternalInterrupt::UartInput) == u);
            match choice {
                Some(e) => {
                    let id = e.id();
                    let b = bit_of(e);
                    let old_bits = self.regs[PENDING_INDEX];
                    self.regs.set(PENDING_INDEX, old_bits & !b);
                    self.external_interrupt_list.remove(e);
                    if self.external_interrupt_list.is_empty() {
                        interrupts.remove(Interrupt::SupervisorExternalInterrupt);
                    }
                    Ok(id)
                },
                None => Ok(0),
            }
        } else {
            Ok(self.regs[(relative_addr / 4) as usize] as u64)
        }
    }

    /// Writes are ignored.
    pub fn store(&mut self, _addr: u64, _size: u64, _value: u64) -> (r: Result<(), Exception>)
        ensures
            r == Ok::<(), Exception>(()),
            final(self)@ == old(self)@,
    {
        Ok(())
    }

    /// A PLIC restored from `snapshot`, with nothing posted.
    pub fn from_snapshot(snapshot: PlicSnapshot) -> (p: Plic)
        ensures
            p@ == plic_restored(snapshot),
            p@.start_addr == snapshot.start_addr,
            p@.regs == snapshot.regs@,
            p@.pending == Seq::<ExternalInterrupt>::empty(),
            p@.list == snapshot.external_interrupt_list@.to_set(),
    {
        let list = ExternalInterruptSet::from_slice(snapshot.external_interrupt_list.as_slice());
        Plic {
            start_addr: snapshot.start_addr,
            regs: snapshot.regs,
            pending_queue: Vec::new(),
            external_interrupt_list: list,
        }
    }

    /// The saved form of this PLIC. Posted but unprocessed interrupts are not kept.
    pub fn to_snapshot(&self) -> (s: PlicSnapshot)
        ensures
            plic_snapshot_of(s, self@),
            s.start_addr == self@.start_addr,
            s.regs@ == self@.regs,
            s.external_interrupt_list@.to_set() == self@.list,
            s.external_interrupt_list@.no_duplicates(),
    {
        PlicSnapshot {
            start_addr: self.start_addr,
            regs: self.regs.clone(),
            external_interrupt_list: self.external_interrupt_list.to_vec(),
        }
    }
}


/// The PLIC source numbers of the devices: the virtio disk is source 1 and the UART source 10,
/// and the two sources have distinct pending bits.
pub proof fn lemma_external_ids(e: ExternalInterrupt)
    ensures
        external_id(e) == match e {
            ExternalInterrupt::VirtioDiskIO => 1u64,
            ExternalInterrupt::UartInput => 10,
        },
        external_bit(ExternalInterrupt::VirtioDiskIO) != external_bit(ExternalInterrupt::UartInput),
{
}

} // verus!
