use crate::interrupt::Exception;
use std::collections::VecDeque;
use vstd::prelude::*;

verus! {

/// Size of the UART register window.
pub const UART_SIZE: u64 = 0x100;

/// Receive holding register (read) / transmit holding register (write).
pub const REG_RHR_THR: u64 = 0;
/// Line status register.
pub const REG_LSR: u64 = 5;

/// LSR bit: a received byte is waiting.
pub const RECEIVE_DATA_READY: u64 = 0x1;
/// LSR bit: the transmit holding register is empty.
pub const TRANSMIT_HOLDING_EMPTY: u64 = 0x20;
/// LSR bit: the transmitter is idle.
pub const TRANSMIT_EMPTY: u64 = 0x40;

/// The saved UART: only its place. Bytes waiting to be read are not kept.
#[derive(Clone, Copy)]
pub struct UartSnapshot {
    pub start_addr: u64,
}

/// A 16550-style UART. Received bytes wait in `recv_buf` until the guest reads RHR; bytes the
/// guest writes to THR collect in `output` until they are taken for display.
pub struct Uart {
    pub start_addr: u64,
    pub recv_buf: VecDeque<u8>,
    pub output: Vec<u8>,
}

/// The state of a UART.
#[verifier::ext_equal]
pub struct UartState {
    pub start_addr: u64,
    pub recv: Seq<u8>,
    pub out: Seq<u8>,
}

impl View for Uart {
    type V = UartState;

    open spec fn view(&self) -> UartState {
        UartState { start_addr: self.start_addr, recv: self.recv_buf@, out: self.output@ }
    }
}

impl UartState {
    /// The register window does not wrap around.
    pub open spec fn wf(self) -> bool {
        self.start_addr + UART_SIZE <= u64::MAX
    }

    /// Whether `addr` falls in the UART window.
    pub open spec fn accessible(self, addr: u64) -> bool {
        self.start_addr <= addr < self.start_addr + UART_SIZE
    }

    /// What a read of `size` bits at `addr` returns, and the UART after it. Only byte reads
    /// are served; reading RHR takes the oldest received byte (0 when none waits).
    pub open spec fn load_spec(self, addr: u64, size: u64) -> (Result<u64, Exception>, UartState) {
        if size != 8 {
            (Err(Exception::LoadAccessFault), self)
        } else if addr - self.start_addr == REG_RHR_THR {
            if self.recv.len() > 0 {
                (Ok(self.recv[0] as u64), UartState { recv: self.recv.drop_first(), ..self })
            } else {
                (Ok(0), self)
            }
        } else if addr - self.start_addr == REG_LSR {
            (
                Ok(
                    TRANSMIT_EMPTY | TRANSMIT_HOLDING_EMPTY | (if self.recv.len() > 0 {
                        RECEIVE_DATA_READY
                    } else {
                        0
                    }),
                ),
                self,
            )
        } else {
            (Ok(0), self)
        }
    }

    /// What a write of `size` bits at `addr` returns, and the UART after it. Only byte writes
    /// are served; writing THR sends the low byte of `value`.
    pub open spec fn store_spec(self, addr: u64, size: u64, value: u64) -> (
        Result<(), Exception>,
        UartState,
    ) {
        if size != 8 {
            (Err(Exception::LoadAccessFault), self)
        } else if addr - self.start_addr == REG_RHR_THR {
            (Ok(()), UartState { out: self.out.push(value as u8), ..self })
        } else {
            (Ok(()), self)
        }
    }
}

/// Received bytes are read back from RHR first in, first out: a read of RHR gives the
/// oldest byte still waiting, and LSR reports data ready exactly while bytes wait.
pub proof fn lemma_uart_fifo(u: UartState, byte: u8)
    requires
        u.wf(),
    ensures
        (UartState { recv: u.recv.push(byte), ..u }).load_spec(u.start_addr, 8).0 == Ok::<
            u64,
            Exception,
        >(if u.recv.len() > 0 { u.recv[0] as u64 } else { byte as u64 }),
        u.recv.len() == 0 ==> (UartState { recv: u.recv.push(byte), ..u }).load_spec(
            u.start_addr,
            8,
        ).1 == u,
        u.load_spec((u.start_addr + REG_LSR) as u64, 8).0 == Ok::<u64, Exception>(
            TRANSMIT_EMPTY | TRANSMIT_HOLDING_EMPTY | if u.recv.len() > 0 {
                RECEIVE_DATA_READY
            } else {
                0
            },
        ),
{
    let v = UartState { recv: u.recv.push(byte), ..u };
    if u.recv.len() == 0 {
        assert(v.recv.drop_first() =~= u.recv);
    }
}

impl Uart {
    /// A UART at `start_addr` with nothing received and nothing sent.
    pub fn new(start_addr: u64) -> (u: Uart)
        ensures
            u@ == (UartState { start_addr, recv: Seq::empty(), out: Seq::empty() }),
    {
        Uart { start_addr, recv_buf: VecDeque::new(), output: Vec::new() }
    }

    /// Whether `addr` falls in the UART window.
    pub fn is_accessible(&self, addr: u64) -> (b: bool)
        requires
            self@.wf(),
        ensures
            b == self@.accessible(addr),
    {
        (addr >= self.start_addr) && (addr < self.start_addr + UART_SIZE)
    }

    /// Reads a UART register; offsets without a register read as 0.
    pub fn load(&mut self, addr: u64, size: u64) -> (r: Result<u64, Exception>)
        requires
            size == 8 ==> old(self)@.start_addr <= addr,
        ensures
            (r, final(self)@) == old(self)@.load_spec(addr, size),
    {
        if size != 8 {
            return Err(Exception::LoadAccessFault);
        }
        let actual_addr = addr - self.start_addr;
        if actual_addr == REG_RHR_THR {
            match self.recv_buf.pop_front() {
                Some(ch) => {
                    assert(self@ =~= (UartState { recv: old(self)@.recv.drop_first(), ..old(self)@ }));
                    Ok(ch as u64)
                },
                None => Ok(0),
            }
        } else if actual_addr == REG_LSR {
            let has_data = self.recv_buf.len() > 0;
            let rx_ready = if has_data {
                RECEIVE_DATA_READY
            } else {
                0
            };
            Ok(TRANSMIT_EMPTY | TRANSMIT_HOLDING_EMPTY | rx_ready)
        } else {
            Ok(0x0)
        }
    }

    /// Writes a UART register; a byte written to THR is queued for display, and writes to
    /// other offsets are ignored.
    pub fn store(&mut self, addr: u64, size: u64, value: u64) -> (r: Result<(), Exception>)
        requires
            size == 8 ==> old(self)@.start_addr <= addr,
        ensures
            (r, final(self)@) == old(self)@.store_spec(addr, size, value),
    {
        if size != 8 {
            return Err(Exception::LoadAccessFault);
        }
        let actual_addr = addr - self.start_addr;
        if actual_addr == REG_RHR_THR {
            self.output.push(value as u8);
            assert(self@ =~= (UartState { out: old(self)@.out.push(value as u8), ..old(self)@ }));
        }
        Ok(())
    }

    /// Queues a received byte for the guest to read.
    pub fn receive(&mut self, byte: u8)
        ensures
            final(self)@ == (UartState { recv: old(self)@.recv.push(byte), ..old(self)@ }),
    {
        self.recv_buf.push_back(byte);
        assert(self@ =~= (UartState { recv: old(self)@.recv.push(byte), ..old(self)@ }));
    }

    /// Takes the bytes the guest has sent since the last call.
    pub fn take_output(&mut self) -> (out: Vec<u8>)
        ensures
            out@ == old(self)@.out,
            final(self)@ == (UartState { out: Seq::empty(), ..old(self)@ }),
    {
        let mut out = Vec::new();
        std::mem::swap(&mut out, &mut self.output);
        assert(self@ =~= (UartState { out: Seq::empty(), ..old(self)@ }));
        out
    }

    /// A UART restored from `snapshot`, with nothing received and nothing sent.
    pub fn from_snapshot(snapshot: UartSnapshot) -> (u: Uart)
        ensures
            u@ == (UartState { start_addr: snapshot.start_addr, recv: Seq::empty(), out: Seq::empty() }),
    {
        Uart::new(snapshot.start_addr)
    }

    /// The saved form of this UART.
    pub fn to_snapshot(&self) -> (s: UartSnapshot)
        ensures
            s.start_addr == self.start_addr,
    {
        UartSnapshot { start_addr: self.start_addr }
    }
}


/// Writing the UART: a byte-sized write to THR (offset 0) sends the low byte of the value,
/// appending it to what was sent; a byte-sized write elsewhere in the window changes nothing;
/// any other size fails with an access fault and changes nothing.
pub proof fn lemma_uart_store(u: UartState, addr: u64, size: u64, value: u64)
    requires
        u.start_addr <= addr,
    ensures
        size == 8 && addr == u.start_addr ==> u.store_spec(addr, size, value) == (
            Ok::<(), Exception>(()),
            UartState { out: u.out.push(value as u8), ..u },
        ),
        size == 8 && addr != u.start_addr ==> u.store_spec(addr, size, value) == (Ok::<(), Exception>(()), u),
        size != 8 ==> u.store_spec(addr, size, value) == (Err::<(), Exception>(Exception::LoadAccessFault), u),
{
}

} // verus!
