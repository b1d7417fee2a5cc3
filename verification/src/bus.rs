use crate::dram::{
    le_value, le_write, lemma_store_load, low_bytes_value, valid_width, Dram, DRAM_SIZE,
};
use crate::interrupt::{Exception, InterruptList};
use crate::plic::{ExternalInterrupt, Plic, PlicSnapshot, PlicState, PLIC_REGS};
use crate::uart::{Uart, UartSnapshot, UartState};
use crate::virtio::{disk_access_failure, disk_access_spec, disk_access_state, DiskAccessError, Virtio, VirtioState};
use vstd::prelude::*;

verus! {

/// Where the PLIC is mapped.
pub const PLIC_BASE: u64 = 0xc000000;
/// Where the UART is mapped.
pub const UART_BASE: u64 = 0x10000000;
/// Where the virtio block device is mapped.
pub const VIRTIO_BASE: u64 = 0x10001000;

/// The system bus: main memory from `dram_base` upwards, and the devices below it.
pub struct Bus {
    pub dram: Dram,
    pub uart: Uart,
    pub plic: Plic,
    pub virtio: Option<Virtio>,
}

/// The state of the bus and of everything on it.
#[verifier::ext_equal]
pub struct BusState {
    pub base: u64,
    pub mem: Seq<u8>,
    pub uart: UartState,
    pub plic: PlicState,
    pub virtio: Option<VirtioState>,
}

impl View for Bus {
    type V = BusState;

    open spec fn view(&self) -> BusState {
        BusState {
            base: self.dram.dram_base,
            mem: self.dram.dram@,
            uart: self.uart@,
            plic: self.plic@,
            virtio: match self.virtio {
                Some(v) => Some(v@),
                None => None,
            },
        }
    }
}

impl BusState {
    /// A bus with `code` loaded at the start of memory (mapped at `base_addr`) and the rest of
    /// memory zero, the PLIC, the UART and the virtio device at their usual places, all idle.
    pub open spec fn initial(code: Seq<u8>, base_addr: u64) -> BusState {
        BusState {
            base: base_addr,
            mem: code + Seq::new((DRAM_SIZE - code.len()) as nat, |i: int| 0u8),
            uart: UartState { start_addr: UART_BASE, recv: Seq::empty(), out: Seq::empty() },
            plic: PlicState {
                start_addr: PLIC_BASE,
                regs: Seq::new(PLIC_REGS as nat, |i: int| 0u32),
                pending: Seq::empty(),
                list: Set::empty(),
            },
            virtio: Some(VirtioState::initial(VIRTIO_BASE)),
        }
    }

    /// Memory has its full size, the device windows do not wrap around, and no virtio
    /// notification is left unposted.
    pub open spec fn wf(self) -> bool {
        &&& self.mem.len() == DRAM_SIZE
        &&& self.uart.wf()
        &&& self.plic.wf()
        &&& match self.virtio {
            Some(v) => v.wf() && !v.notified,
            None => true,
        }
    }

    /// An access of `size` bits at `addr` that falls in memory lies inside it.
    pub open spec fn mem_access_defined(self, addr: u64, size: u64) -> bool {
        self.base <= addr && valid_width(size) ==> addr - self.base + size / 8 <= self.mem.len()
    }

    /// What a read of `size` bits at `addr` returns, and the bus after it. Memory answers
    /// every address from its base upwards; below it the UART and then the virtio device are
    /// tried; anything else is an access fault.
    pub open spec fn load_spec(self, addr: u64, size: u64) -> (Result<u64, Exception>, BusState) {
        if self.base <= addr {
            if valid_width(size) {
                (Ok(le_value(self.mem, addr - self.base, (size / 8) as nat) as u64), self)
            } else {
                (Err(Exception::LoadAccessFault), self)
            }
        } else if self.uart.accessible(addr) {
            let (r, u) = self.uart.load_spec(addr, size);
            (r, BusState { uart: u, ..self })
        } else if self.virtio is Some && self.virtio->0.accessible(addr) {
            (Ok(self.virtio->0.mmio_read((addr - self.virtio->0.start_addr) as u64)), self)
        } else {
            (Err(Exception::LoadAccessFault), self)
        }
    }

    /// What a write of `size` bits of `value` at `addr` returns, and the bus after it. Writes
    /// to the PLIC are ignored; a queue notification written to the virtio device is posted to
    /// the PLIC right away.
    pub open spec fn store_spec(self, addr: u64, size: u64, value: u64) -> (
        Result<(), Exception>,
        BusState,
    ) {
        if self.base <= addr {
            if valid_width(size) {
                (
                    Ok(()),
                    BusState {
                        mem: le_write(self.mem, addr - self.base, (size / 8) as nat, value),
                        ..self
                    },
                )
            } else {
                (Err(Exception::StoreAMOAccessFault), self)
            }
        } else if self.uart.accessible(addr) {
            let (r, u) = self.uart.store_spec(addr, size, value);
            (r, BusState { uart: u, ..self })
        } else if self.plic.accessible(addr) {
            (Ok(()), self)
        } else if self.virtio is Some && self.virtio->0.accessible(addr) {
            let v1 = self.virtio->0.mmio_write((addr - self.virtio->0.start_addr) as u64, value);
            let plic = if v1.notified {
                PlicState { pending: self.plic.pending.push(ExternalInterrupt::VirtioDiskIO), ..self.plic }
            } else {
                self.plic
            };
            (Ok(()), BusState { virtio: Some(VirtioState { notified: false, ..v1 }), plic, ..self })
        } else {
            (Err(Exception::StoreAMOAccessFault), self)
        }
    }
}

/// Main memory reads back what was written: after a store of `size` bits at an address in
/// memory, a load of the same width there gives the stored value cut to that width, and the
/// store changes no byte outside the ones it covers.
pub proof fn lemma_bus_store_load(b: BusState, addr: u64, size: u64, v: u64, other: int)
    requires
        b.wf(),
        b.base <= addr,
        valid_width(size),
        b.mem_access_defined(addr, size),
    ensures
        b.store_spec(addr, size, v).0 is Ok,
        b.store_spec(addr, size, v).1.load_spec(addr, size).0 == Ok::<u64, Exception>(
            low_bytes_value(v, (size / 8) as nat),
        ),
        0 <= other < b.mem.len() && !(addr - b.base <= other < addr - b.base + size / 8)
            ==> b.store_spec(addr, size, v).1.mem[other] == b.mem[other],
{
    lemma_store_load(b.mem, addr - b.base, (size / 8) as nat, v, other);
}

impl Bus {
    /// A bus with `code` loaded at the start of memory (mapped at `base_addr`), the PLIC, the
    /// UART and the virtio device at their usual places.
    pub fn new(code: Vec<u8>, base_addr: u64) -> (b: Bus)
        requires
            code.len() <= DRAM_SIZE,
        ensures
            b@.wf(),
            b@ == BusState::initial(code@, base_addr),
    {
        let plic = Plic::new(PLIC_BASE);
        Bus {
            plic,
            dram: Dram::new(code, base_addr),
            uart: Uart::new(UART_BASE),
            virtio: Some(Virtio::new(VIRTIO_BASE)),
        }
    }

    /// Whether a read of `size` bits at `addr` that falls in memory lies inside it.
    pub fn is_access_defined(&self, addr: u64, size: u64) -> (b: bool)
        ensures
            b == self@.mem_access_defined(addr, size),
    {
        if self.dram.dram_base <= addr && (size == 8 || size == 16 || size == 32 || size == 64) {
            self.dram.contains_range(addr, size)
        } else {
            true
        }
    }

    /// Reads `size` bits at `addr`.
    pub fn load(&mut self, addr: u64, size: u64) -> (r: Result<u64, Exception>)
        requires
            old(self)@.wf(),
            old(self)@.mem_access_defined(addr, size),
        ensures
            final(self)@.wf(),
            (r, final(self)@) == old(self)@.load_spec(addr, size),
    {
        if self.dram.dram_base <= addr {
            return self.dram.load(addr, size);
        }
        if self.uart.is_accessible(addr) {
            let r = self.uart.load(addr, size);
            assert(self@ =~= (BusState { uart: self.uart@, ..old(self)@ }));
            return r;
        }
        match &self.virtio {
            Some(virtio) => {
                if virtio.is_accessible(addr) {
                    return virtio.load(addr, size);
                }
            },
            None => {},
        }
        Err(Exception::LoadAccessFault)
    }

    /// Reads the PLIC register at `addr`, which may claim an external interrupt.
    pub fn plic_load(&mut self, addr: u64, size: u64, interrupts: &mut InterruptList) -> (r: Result<
        u64,
        Exception,
    >)
        requires
            old(self)@.wf(),
            old(self)@.plic.accessible(addr),
            old(self)@.plic.load_defined(addr),
        ensures
            final(self)@.wf(),
            final(self)@ == (BusState { plic: final(self)@.plic, ..old(self)@ }),
            (r, final(self)@.plic, final(interrupts)@) == old(self)@.plic.load_spec(
                addr,
                old(interrupts)@,
            ),
    {
        let r = self.plic.load(addr, size, interrupts);
        assert(self@ =~= (BusState { plic: self@.plic, ..old(self)@ }));
        r
    }

    /// Writes the low `size` bits of `value` at `addr`.
    pub fn store(&mut self, addr: u64, size: u64, value: u64) -> (r: Result<(), Exception>)
        requires
            old(self)@.wf(),
            old(self)@.mem_access_defined(addr, size),
        ensures
            final(self)@.wf(),
            (r, final(self)@) == old(self)@.store_spec(addr, size, value),
    {
        if self.dram.dram_base <= addr {
            let r = self.dram.store(addr, size, value);
            assert(self@ =~= old(self)@.store_spec(addr, size, value).1);
            return r;
        }
        if self.uart.is_accessible(addr) {
            let r = self.uart.store(addr, size, value);
            assert(self@ =~= (BusState { uart: self.uart@, ..old(self)@ }));
            return r;
        }
        if self.plic.is_accessible(addr) {
            return self.plic.store(addr, size, value);
        }
        let mut virtio = self.virtio.take();
        let r = match &mut virtio {
            Some(v) => {
                if v.is_accessible(addr) {
                    let r = v.store(addr, size, value);
                    if v.take_notification() {
                        self.plic.notify(ExternalInterrupt::VirtioDiskIO);
                    }
                    r
                } else {
                    Err(Exception::StoreAMOAccessFault)
                }
            },
            None => Err(Exception::StoreAMOAccessFault),
        };
        self.virtio = virtio;
        assert(self@ =~= old(self)@.store_spec(addr, size, value).1);
        r
    }

    /// Serves a request waiting at the virtio device, if any, against main memory. An error
    /// means that an address or offset of the request overflows or falls outside memory or
    /// the disk image.
    pub fn process_virtio(&mut self) -> (r: Result<(), DiskAccessError>)
        requires
            old(self)@.wf(),
        ensures
            match old(self)@.virtio {
                Some(v) => {
                    &&& (r is Ok <==> disk_access_spec(v, old(self)@.mem, old(self)@.base) is Some)
                    &&& r is Err ==> r == Err::<(), DiskAccessError>(
                        disk_access_failure(v, old(self)@.mem, old(self)@.base),
                    )
                    &&& final(self)@ == (BusState {
                        virtio: Some(disk_access_state(v, old(self)@.mem, old(self)@.base).0),
                        mem: disk_access_state(v, old(self)@.mem, old(self)@.base).1,
                        ..old(self)@
                    })
                    &&& r is Ok ==> {
                        &&& final(self)@.wf()
                        &&& final(self)@.virtio is Some
                        &&& disk_access_spec(v, old(self)@.mem, old(self)@.base) == Some(
                            (final(self)@.virtio->0, final(self)@.mem),
                        )
                        &&& final(self)@ == (BusState {
                            virtio: final(self)@.virtio,
                            mem: final(self)@.mem,
                            ..old(self)@
                        })
                    }
                },
                None => r is Ok && final(self)@ == old(self)@,
            },
    {
        let mut virtio = self.virtio.take();
        let r = match &mut virtio {
            Some(v) => {
                if v.has_pending_work() {
                    v.disk_access(&mut self.dram)
                } else {
                    Ok(())
                }
            },
            None => Ok(()),
        };
        self.virtio = virtio;
        proof {
            match old(self)@.virtio {
                Some(v) => {
                    assert(self@ =~= (BusState {
                        virtio: Some(disk_access_state(v, old(self)@.mem, old(self)@.base).0),
                        mem: disk_access_state(v, old(self)@.mem, old(self)@.base).1,
                        ..old(self)@
                    }));
                },
                None => {},
            }
            if r is Ok {
                match old(self)@.virtio {
                    Some(v) => {
                        assert(self@ =~= (BusState {
                            virtio: self@.virtio,
                            mem: self@.mem,
                            ..old(self)@
                        }));
                    },
                    None => {
                        assert(self@ =~= old(self)@);
                    },
                }
            }
        }
        r
    }

    /// Queues input bytes at the UART for the guest to read and posts the UART input
    /// interrupt to the PLIC; nothing happens for no bytes.
    pub fn receive_input(&mut self, bytes: &[u8])
        requires
            old(self)@.wf(),
        ensures
            final(self)@.wf(),
            bytes@.len() == 0 ==> final(self)@ == old(self)@,
            bytes@.len() > 0 ==> final(self)@ == (BusState {
                uart: UartState { recv: old(self)@.uart.recv + bytes@, ..old(self)@.uart },
                plic: PlicState {
                    pending: old(self)@.plic.pending.push(ExternalInterrupt::UartInput),
                    ..old(self)@.plic
                },
                ..old(self)@
            }),
    {
        if bytes.len() == 0 {
            return;
        }
        let mut i: usize = 0;
        while i < bytes.len()
            invariant
                i <= bytes@.len(),
                self@ == (BusState {
                    uart: UartState {
                        recv: old(self)@.uart.recv + bytes@.subrange(0, i as int),
                        ..old(self)@.uart
                    },
                    ..old(self)@
                }),
            decreases bytes@.len() - i,
        {
            self.uart.receive(bytes[i]);
            assert(old(self)@.uart.recv + bytes@.subrange(0, i + 1) =~= old(self)@.uart.recv
                + bytes@.subrange(0, i as int) + seq![bytes@[i as int]]);
            i = i + 1;
        }
        assert(bytes@.subrange(0, i as int) =~= bytes@);
        self.plic.notify(ExternalInterrupt::UartInput);
    }

    /// Moves the interrupts devices have posted into the hart's pending interrupts.
    pub fn process_pending_interrupts(&mut self, interrupts: &mut InterruptList)
        requires
            old(self)@.wf(),
        ensures
            final(self)@.wf(),
            final(self)@ == (BusState { plic: final(self)@.plic, ..old(self)@ }),
            (final(self)@.plic, final(interrupts)@) == old(self)@.plic.process_spec(
                old(interrupts)@,
            ),
    {
        self.plic.process_pending_interrupts(interrupts);
        assert(self@ =~= (BusState { plic: self@.plic, ..old(self)@ }));
    }

    /// A bus put back together from saved memory, UART and PLIC; the virtio device is added
    /// separately.
    pub fn from_snapshot(dram: Dram, uart_snap: UartSnapshot, plic_snap: PlicSnapshot) -> (b: Bus)
        ensures
            b@.base == dram.dram_base,
            b@.mem == dram.dram@,
            b@.uart == (UartState {
                start_addr: uart_snap.start_addr,
                recv: Seq::empty(),
                out: Seq::empty(),
            }),
            b@.plic.start_addr == plic_snap.start_addr,
            b@.plic.regs == plic_snap.regs@,
            b@.plic.pending == Seq::<ExternalInterrupt>::empty(),
            b@.plic.list == plic_snap.external_interrupt_list@.to_set(),
            b@.virtio is None,
    {
        let plic = Plic::from_snapshot(plic_snap);
        Bus { dram, uart: Uart::from_snapshot(uart_snap), plic, virtio: None }
    }
}

} // verus!
