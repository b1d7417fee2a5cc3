use crate::dram::{lemma_store_load, le_value, le_write, low_bytes_value, Dram};
use crate::interrupt::Exception;
use vstd::prelude::*;

verus! {

/// Size of the virtio MMIO register window.
pub const VIRTIO_SIZE: u64 = 0x1000;
/// Size of one descriptor in the descriptor table.
pub const VRING_DESC_SIZE: u64 = 16;
/// Number of descriptors; a power of two.
pub const DESC_NUM: u64 = 8;
/// Value of `queue_notify` while no request is waiting.
pub const QUEUE_IDLE: u64 = 9999;
/// Size of a disk sector.
pub const SECTOR_SIZE: u64 = 512;

pub const VIRTIO_MMIO_MAGIC_VALUE: u64 = 0x000;
pub const VIRTIO_MMIO_VERSION: u64 = 0x004;
pub const VIRTIO_MMIO_DEVICE_ID: u64 = 0x008;
pub const VIRTIO_MMIO_VENDOR_ID: u64 = 0x00c;
pub const VIRTIO_MMIO_DEVICE_FEATURES: u64 = 0x010;
pub const VIRTIO_MMIO_DRIVER_FEATURES: u64 = 0x020;
pub const VIRTIO_MMIO_GUEST_PAGE_SIZE: u64 = 0x028;
pub const VIRTIO_MMIO_QUEUE_SEL: u64 = 0x030;
pub const VIRTIO_MMIO_QUEUE_NUM_MAX: u64 = 0x034;
pub const VIRTIO_MMIO_QUEUE_NUM: u64 = 0x038;
pub const VIRTIO_MMIO_QUEUE_PFN: u64 = 0x040;
pub const VIRTIO_MMIO_QUEUE_READY: u64 = 0x044;
pub const VIRTIO_MMIO_QUEUE_NOTIFY: u64 = 0x050;
pub const VIRTIO_MMIO_INTERRUPT_STATUS: u64 = 0x060;
pub const VIRTIO_MMIO_INTERRUPT_ACK: u64 = 0x064;
pub const VIRTIO_MMIO_STATUS: u64 = 0x070;
pub const VIRTIO_MMIO_QUEUE_DESC_LOW: u64 = 0x080;
pub const VIRTIO_MMIO_QUEUE_DESC_HIGH: u64 = 0x084;
pub const VIRTIO_MMIO_DRIVER_DESC_LOW: u64 = 0x090;
pub const VIRTIO_MMIO_DRIVER_DESC_HIGH: u64 = 0x094;
pub const VIRTIO_MMIO_DEVICE_DESC_LOW: u64 = 0x0a0;
pub const VIRTIO_MMIO_DEVICE_DESC_HIGH: u64 = 0x0a4;

/// The saved virtio device, disk image included.
#[derive(Clone)]
pub struct VirtioSnapshot {
    pub start_addr: u64,
    pub id: u8,
    pub driver_features: u64,
    pub page_size: u64,
    pub queue_sel: u64,
    pub queue_num: u64,
    pub queue_pfn: u64,
    pub queue_notify: u64,
    pub desc_addr: u64,
    pub avail_addr: u64,
    pub used_addr: u64,
    pub status: u64,
    pub disk: Vec<u8>,
}

/// A virtio block device over MMIO. `notified` records a queue notification that has not yet
/// been posted to the interrupt controller.
pub struct Virtio {
    pub start_addr: u64,
    pub id: u8,
    pub driver_features: u64,
    pub page_size: u64,
    pub queue_sel: u64,
    pub queue_num: u64,
    pub queue_pfn: u64,
    pub desc_addr: u64,
    pub avail_addr: u64,
    pub used_addr: u64,
    pub queue_notify: u64,
    pub status: u64,
    pub disk: Vec<u8>,
    pub notified: bool,
}

/// The state of a virtio block device.
#[verifier::ext_equal]
pub struct VirtioState {
    pub start_addr: u64,
    pub id: u8,
    pub driver_features: u64,
    pub page_size: u64,
    pub queue_sel: u64,
    pub queue_num: u64,
    pub queue_pfn: u64,
    pub desc_addr: u64,
    pub avail_addr: u64,
    pub used_addr: u64,
    pub queue_notify: u64,
    pub status: u64,
    pub disk: Seq<u8>,
    pub notified: bool,
}

impl View for Virtio {
    type V = VirtioState;

    open spec fn view(&self) -> VirtioState {
        VirtioState {
            start_addr: self.start_addr,
            id: self.id,
            driver_features: self.driver_features,
            page_size: self.page_size,
            queue_sel: self.queue_sel,
            queue_num: self.queue_num,
            queue_pfn: self.queue_pfn,
            desc_addr: self.desc_addr,
            avail_addr: self.avail_addr,
            used_addr: self.used_addr,
            queue_notify: self.queue_notify,
            status: self.status,
            disk: self.disk@,
            notified: self.notified,
        }
    }
}

/// The value `size` bits long at guest address `a + off`, when the address does not overflow
/// and the access lies in memory `mem` mapped at `base`.
pub open spec fn read_at(mem: Seq<u8>, base: u64, a: u64, off: u64, size: u64) -> Option<u64> {
    let addr = a + off;
    if addr <= u64::MAX && base <= addr && addr - base + size / 8 <= mem.len() {
        Some(le_value(mem, addr - base, (size / 8) as nat) as u64)
    } else {
        None
    }
}

/// Memory `mem` after writing the low `size` bits of `v` at guest address `a + off`, when the
/// address does not overflow and the access lies in memory.
pub open spec fn write_at(mem: Seq<u8>, base: u64, a: u64, off: u64, size: u64, v: u64) -> Option<
    Seq<u8>,
> {
    let addr = a + off;
    if addr <= u64::MAX && base <= addr && addr - base + size / 8 <= mem.len() {
        Some(le_write(mem, addr - base, (size / 8) as nat, v))
    } else {
        None
    }
}

/// The parts of a three-descriptor block request that the device uses.
pub struct DescChain {
    pub head: u16,
    pub len1: u32,
    pub flags1: u16,
    pub addr1: u64,
    pub addr2: u64,
    pub sector: u64,
}

/// A DMA transfer could not be carried out: a guest address or a disk offset overflows or
/// lies outside memory or the disk image.
#[derive(Debug, Clone, Copy, PartialEq, Eq)]
pub enum DiskAccessError {
    GuestAddress,
    DiskOffset,
}

/// The request chain whose head the avail ring holds at position `avail_idx - 1`.
pub open spec fn read_chain(v: VirtioState, mem: Seq<u8>, base: u64, avail_idx: u16) -> Option<
    DescChain,
> {
    let ring_pos = ((avail_idx - 1) % DESC_NUM as int) as u64;
    match read_at(mem, base, v.avail_addr, (4 + ring_pos * 2) as u64, 16) {
        None => None,
        Some(h) => {
            let head = h as u16;
            let desc0 = v.desc_addr + VRING_DESC_SIZE * head;
            if desc0 > u64::MAX {
                None
            } else {
                let d0 = desc0 as u64;
                match (
                    read_at(mem, base, d0, 0, 64),
                    read_at(mem, base, d0, 8, 32),
                    read_at(mem, base, d0, 12, 16),
                    read_at(mem, base, d0, 14, 16),
                ) {
                    (Some(addr0), Some(_), Some(_), Some(n0)) => {
                        let desc1 = v.desc_addr + VRING_DESC_SIZE * (n0 as u16);
                        if desc1 > u64::MAX {
                            None
                        } else {
                            let d1 = desc1 as u64;
                            match (
                                read_at(mem, base, d1, 0, 64),
                                read_at(mem, base, d1, 8, 32),
                                read_at(mem, base, d1, 12, 16),
                                read_at(mem, base, d1, 14, 16),
                            ) {
                                (Some(addr1), Some(l1), Some(f1), Some(n1)) => {
                                    let desc2 = v.desc_addr + VRING_DESC_SIZE * (n1 as u16);
                                    if desc2 > u64::MAX {
                                        None
                                    } else {
                                        let d2 = desc2 as u64;
                                        match (
                                            read_at(mem, base, d2, 0, 64),
                                            read_at(mem, base, d2, 8, 32),
                                            read_at(mem, base, d2, 12, 16),
                                            read_at(mem, base, addr0, 8, 64),
                                        ) {
                                            (Some(addr2), Some(_), Some(_), Some(sector)) => Some(
                                                DescChain {
                                                    head,
                                                    len1: l1 as u32,
                                                    flags1: f1 as u16,
                                                    addr1,
                                                    addr2,
                                                    sector,
                                                },
                                            ),
                                            _ => None,
                                        }
                                    }
                                },
                                _ => None,
                            }
                        }
                    },
                    _ => None,
                }
            }
        },
    }
}

/// The bytes of the request move between memory and the disk image without overflow and
/// inside both.
pub open spec fn transfer_ok(disk: Seq<u8>, mem: Seq<u8>, base: u64, c: DescChain) -> bool {
    c.len1 == 0 || {
        &&& c.addr1 + c.len1 - 1 <= u64::MAX
        &&& base <= c.addr1
        &&& c.addr1 - base + c.len1 <= mem.len()
        &&& c.sector * SECTOR_SIZE + c.len1 - 1 <= u64::MAX
        &&& c.sector * SECTOR_SIZE + c.len1 <= disk.len()
    }
}

/// The disk image after the guest's buffer is written to it.
pub open spec fn disk_after_write(disk: Seq<u8>, mem: Seq<u8>, base: u64, c: DescChain) -> Seq<
    u8,
> {
    let start = c.sector * SECTOR_SIZE;
    Seq::new(
        disk.len(),
        |j: int|
            if start <= j < start + c.len1 {
                mem[c.addr1 - base + (j - start)]
            } else {
                disk[j]
            },
    )
}

/// Memory after the requested sectors are read into the guest's buffer.
pub open spec fn mem_after_read(disk: Seq<u8>, mem: Seq<u8>, base: u64, c: DescChain) -> Seq<u8> {
    let start = c.addr1 - base;
    Seq::new(
        mem.len(),
        |j: int|
            if start <= j < start + c.len1 {
                disk[c.sector * SECTOR_SIZE + (j - start)]
            } else {
                mem[j]
            },
    )
}

/// The disk reads back what was written to it: after a request writes a buffer to some
/// sectors, a later request reading the same number of bytes from the same sectors into any
/// buffer (whatever memory holds by then) fills it with the written bytes; the disk image
/// keeps its size and everything outside the written bytes.
pub proof fn lemma_disk_write_read(
    disk: Seq<u8>,
    mem: Seq<u8>,
    base: u64,
    w: DescChain,
    mem2: Seq<u8>,
    r: DescChain,
    k: int,
)
    requires
        transfer_ok(disk, mem, base, w),
        r.sector == w.sector,
        r.len1 == w.len1,
        transfer_ok(disk_after_write(disk, mem, base, w), mem2, base, r),
        0 <= k < w.len1,
    ensures
        disk_after_write(disk, mem, base, w).len() == disk.len(),
        mem_after_read(disk_after_write(disk, mem, base, w), mem2, base, r)[r.addr1 - base + k]
            == mem[w.addr1 - base + k],
        forall|j: int|
            0 <= j < disk.len() && !(w.sector * SECTOR_SIZE <= j < w.sector * SECTOR_SIZE + w.len1)
                ==> #[trigger] disk_after_write(disk, mem, base, w)[j] == disk[j],
{
}

/// Memory after the request completes: status byte cleared and a used-ring entry appended.
pub open spec fn complete_request(mem: Seq<u8>, base: u64, v: VirtioState, c: DescChain) -> Option<
    Seq<u8>,
> {
    match write_at(mem, base, c.addr2, 0, 8, 0) {
        None => None,
        Some(m1) => match read_at(m1, base, v.used_addr, 2, 16) {
            None => None,
            Some(ui) => {
                let used_idx = ui as u16;
                let used_pos = (used_idx as int % DESC_NUM as int) as u64;
                let elem = v.used_addr + 4 + used_pos * 8;
                if elem > u64::MAX {
                    None
                } else {
                    match write_at(m1, base, elem as u64, 0, 32, c.head as u64) {
                        None => None,
                        Some(m2) => match write_at(m2, base, elem as u64, 4, 32, c.len1 as u64) {
                            None => None,
                            Some(m3) => write_at(
                                m3,
                                base,
                                v.used_addr,
                                2,
                                16,
                                used_idx.wrapping_add(1) as u64,
                            ),
                        },
                    }
                }
            },
        },
    }
}

/// Which check fails when serving the notified request fails: the disk offset where the
/// descriptor chain was read and its transfer falls outside the disk image, a guest address
/// otherwise.
pub open spec fn disk_access_failure(v: VirtioState, mem: Seq<u8>, base: u64) -> DiskAccessError {
    match read_at(mem, base, v.avail_addr, 2, 16) {
        Some(ai) => match read_chain(v, mem, base, ai as u16) {
            Some(c) => if ai as u16 != 0 && !transfer_ok(v.disk, mem, base, c) {
                DiskAccessError::DiskOffset
            } else {
                DiskAccessError::GuestAddress
            },
            None => DiskAccessError::GuestAddress,
        },
        None => DiskAccessError::GuestAddress,
    }
}

/// The device and memory after serving the request the guest notified, or `None` where a
/// guest address or disk offset overflows or falls outside memory or the disk image. An
/// available ring whose index cannot be read leaves memory as it is and the device idle.
pub open spec fn disk_access_spec(v: VirtioState, mem: Seq<u8>, base: u64) -> Option<
    (VirtioState, Seq<u8>),
> {
    if v.queue_notify == QUEUE_IDLE {
        Some((v, mem))
    } else {
        let v1 = VirtioState { queue_notify: QUEUE_IDLE, ..v };
        match read_at(mem, base, v.avail_addr, 2, 16) {
            None => Some((v1, mem)),
            Some(ai) => {
                let avail_idx = ai as u16;
                if avail_idx == 0 {
                    Some((v1, mem))
                } else {
                    match read_chain(v, mem, base, avail_idx) {
                        None => None,
                        Some(c) => if !transfer_ok(v.disk, mem, base, c) {
                            None
                        } else {
                            let writes_memory = c.flags1 & 2 != 0;
                            let v2 = if writes_memory {
                                v1
                            } else {
                                VirtioState { disk: disk_after_write(v.disk, mem, base, c), ..v1 }
                            };
                            let m1 = if writes_memory {
                                mem_after_read(v.disk, mem, base, c)
                            } else {
                                mem
                            };
                            match complete_request(m1, base, v, c) {
                                None => None,
                                Some(m2) => Some((v2, m2)),
                            }
                        },
                    }
                }
            },
        }
    }
}

/// Memory after completing request `c` as far as it goes: each write of the completion is
/// made until one reaches outside memory, and the rest are not.
pub open spec fn complete_partial(mem: Seq<u8>, base: u64, v: VirtioState, c: DescChain) -> Seq<u8> {
    match write_at(mem, base, c.addr2, 0, 8, 0) {
        None => mem,
        Some(m1) => match read_at(m1, base, v.used_addr, 2, 16) {
            None => m1,
            Some(ui) => {
                let used_idx = ui as u16;
                let used_pos = (used_idx as int % DESC_NUM as int) as u64;
                let elem = v.used_addr + 4 + used_pos * 8;
                if elem > u64::MAX {
                    m1
                } else {
                    match write_at(m1, base, elem as u64, 0, 32, c.head as u64) {
                        None => m1,
                        Some(m2) => match write_at(m2, base, elem as u64, 4, 32, c.len1 as u64) {
                            None => m2,
                            Some(m3) => match write_at(
                                m3,
                                base,
                                v.used_addr,
                                2,
                                16,
                                used_idx.wrapping_add(1) as u64,
                            ) {
                                None => m3,
                                Some(m4) => m4,
                            },
                        },
                    }
                }
            },
        },
    }
}

/// The device and memory after serving the notified request, whether or not it succeeds: a
/// request that fails before its data moves leaves memory as it was; one whose completion
/// reaches outside memory keeps the data moved and the completion writes made before.
pub open spec fn disk_access_state(v: VirtioState, mem: Seq<u8>, base: u64) -> (VirtioState, Seq<u8>) {
    if v.queue_notify == QUEUE_IDLE {
        (v, mem)
    } else {
        let v1 = VirtioState { queue_notify: QUEUE_IDLE, ..v };
        match read_at(mem, base, v.avail_addr, 2, 16) {
            None => (v1, mem),
            Some(ai) => {
                let avail_idx = ai as u16;
                if avail_idx == 0 {
                    (v1, mem)
                } else {
                    match read_chain(v, mem, base, avail_idx) {
                        None => (v1, mem),
                        Some(c) => if !transfer_ok(v.disk, mem, base, c) {
                            (v1, mem)
                        } else {
                            let writes_memory = c.flags1 & 2 != 0;
                            let v2 = if writes_memory {
                                v1
                            } else {
                                VirtioState { disk: disk_after_write(v.disk, mem, base, c), ..v1 }
                            };
                            let m1 = if writes_memory {
                                mem_after_read(v.disk, mem, base, c)
                            } else {
                                mem
                            };
                            (v2, complete_partial(m1, base, v, c))
                        },
                    }
                }
            },
        }
    }
}

impl VirtioState {
    /// A device at `start_addr` with all registers clear, no request waiting and an empty disk.
    pub open spec fn initial(start_addr: u64) -> VirtioState {
        VirtioState {
            start_addr,
            id: 0,
            driver_features: 0,
            page_size: 0,
            queue_sel: 0,
            queue_num: 0,
            queue_pfn: 0,
            desc_addr: 0,
            avail_addr: 0,
            used_addr: 0,
            queue_notify: QUEUE_IDLE,
            status: 0,
            disk: Seq::empty(),
            notified: false,
        }
    }

    /// The register window does not wrap around.
    pub open spec fn wf(self) -> bool {
        self.start_addr + VIRTIO_SIZE <= u64::MAX
    }

    /// Whether `addr` falls in the register window.
    pub open spec fn accessible(self, addr: u64) -> bool {
        self.start_addr <= addr < self.start_addr + VIRTIO_SIZE
    }

    /// The value a read of register offset `rel` returns.
    pub open spec fn mmio_read(self, rel: u64) -> u64 {
        if rel == VIRTIO_MMIO_MAGIC_VALUE {
            0x74726976
        } else if rel == VIRTIO_MMIO_VERSION {
            0x2
        } else if rel == VIRTIO_MMIO_DEVICE_ID {
            0x2
        } else if rel == VIRTIO_MMIO_VENDOR_ID {
            0x554d4551
        } else if rel == VIRTIO_MMIO_DEVICE_FEATURES {
            0
        } else if rel == VIRTIO_MMIO_DRIVER_FEATURES {
            self.driver_features
        } else if rel == VIRTIO_MMIO_QUEUE_NUM_MAX {
            8
        } else if rel == VIRTIO_MMIO_QUEUE_PFN {
            self.queue_pfn
        } else if rel == VIRTIO_MMIO_STATUS {
            self.status
        } else if rel == VIRTIO_MMIO_QUEUE_SEL {
            self.queue_sel
        } else if rel == VIRTIO_MMIO_QUEUE_NUM {
            self.queue_num
        } else if rel == VIRTIO_MMIO_GUEST_PAGE_SIZE {
            self.page_size
        } else if rel == VIRTIO_MMIO_QUEUE_NOTIFY {
            self.queue_notify
        } else if rel == VIRTIO_MMIO_QUEUE_DESC_LOW {
            self.desc_addr
        } else if rel == VIRTIO_MMIO_QUEUE_DESC_HIGH {
            self.desc_addr >> 32
        } else if rel == VIRTIO_MMIO_DRIVER_DESC_LOW {
            self.avail_addr
        } else if rel == VIRTIO_MMIO_DRIVER_DESC_HIGH {
            self.avail_addr >> 32
        } else if rel == VIRTIO_MMIO_DEVICE_DESC_LOW {
            self.used_addr
        } else if rel == VIRTIO_MMIO_DEVICE_DESC_HIGH {
            self.used_addr >> 32
        } else {
            0
        }
    }

    /// The device after a write of `value` to register offset `rel`. A write of anything but
    /// `QUEUE_IDLE` to the notify register raises a notification.
    pub open spec fn mmio_write(self, rel: u64, value: u64) -> VirtioState {
        if rel == VIRTIO_MMIO_DEVICE_FEATURES {
            VirtioState { driver_features: value, ..self }
        } else if rel == VIRTIO_MMIO_GUEST_PAGE_SIZE {
            VirtioState { page_size: value, ..self }
        } else if rel == VIRTIO_MMIO_QUEUE_SEL {
            VirtioState { queue_sel: value, ..self }
        } else if rel == VIRTIO_MMIO_QUEUE_NUM {
            VirtioState { queue_num: value, ..self }
        } else if rel == VIRTIO_MMIO_QUEUE_PFN {
            VirtioState { queue_pfn: value, ..self }
        } else if rel == VIRTIO_MMIO_QUEUE_NOTIFY {
            VirtioState {
                queue_notify: value,
                notified: self.notified || value != QUEUE_IDLE,
                ..self
            }
        } else if rel == VIRTIO_MMIO_STATUS {
            VirtioState { status: value, ..self }
        } else if rel == VIRTIO_MMIO_QUEUE_DESC_LOW {
            VirtioState { desc_addr: value & 0xffff_ffff, ..self }
        } else if rel == VIRTIO_MMIO_QUEUE_DESC_HIGH {
            VirtioState { desc_addr: self.desc_addr | ((value & 0xffff_ffff) << 32), ..self }
        } else if rel == VIRTIO_MMIO_DRIVER_DESC_LOW {
            VirtioState { avail_addr: value & 0xffff_ffff, ..self }
        } else if rel == VIRTIO_MMIO_DRIVER_DESC_HIGH {
            VirtioState { avail_addr: self.avail_addr | ((value & 0xffff_ffff) << 32), ..self }
        } else if rel == VIRTIO_MMIO_DEVICE_DESC_LOW {
            VirtioState { used_addr: value & 0xffff_ffff, ..self }
        } else if rel == VIRTIO_MMIO_DEVICE_DESC_HIGH {
            VirtioState { used_addr: self.used_addr | ((value & 0xffff_ffff) << 32), ..self }
        } else {
            self
        }
    }
}

fn read_at_exec(dram: &Dram, a: u64, off: u64, size: u64) -> (r: Option<u64>)
    requires
        size == 8 || size == 16 || size == 32 || size == 64,
    ensures
        r == read_at(dram.dram@, dram.dram_base, a, off, size),
{
    match a.checked_add(off) {
        None => None,
        Some(addr) => {
            if dram.contains_range(addr, size) {
                match dram.load(addr, size) {
                    Ok(v) => Some(v),
                    Err(_) => None,
                }
            } else {
                None
            }
        },
    }
}

fn write_at_exec(dram: &mut Dram, a: u64, off: u64, size: u64, v: u64) -> (ok: bool)
    requires
        size == 8 || size == 16 || size == 32 || size == 64,
    ensures
        final(dram).dram_base == old(dram).dram_base,
        ok ==> write_at(old(dram).dram@, old(dram).dram_base, a, off, size, v) == Some(
            final(dram).dram@,
        ),
        !ok ==> write_at(old(dram).dram@, old(dram).dram_base, a, off, size, v) is None,
        !ok ==> final(dram).dram@ == old(dram).dram@,
{
    match a.checked_add(off) {
        None => false,
        Some(addr) => {
            if dram.contains_range(addr, size) {
                let _ = dram.store(addr, size, v);
                true
            } else {
                false
            }
        },
    }
}

impl Virtio {
    /// A device at `start_addr` with all registers clear, no request waiting and an empty disk.
    pub fn new(start_addr: u64) -> (v: Virtio)
        ensures
            v@ == VirtioState::initial(start_addr),
    {
        let v = Virtio {
            start_addr,
            id: 0,
            driver_features: 0,
            page_size: 0,
            queue_sel: 0,
            queue_num: 0,
            queue_pfn: 0,
            desc_addr: 0,
            avail_addr: 0,
            used_addr: 0,
            queue_notify: QUEUE_IDLE,
            status: 0,
            disk: Vec::new(),
            notified: false,
        };
        assert(v@.disk =~= Seq::<u8>::empty());
        v
    }

    /// Whether `addr` falls in the register window.
    pub fn is_accessible(&self, addr: u64) -> (b: bool)
        requires
            self@.wf(),
        ensures
            b == self@.accessible(addr),
    {
        (addr >= self.start_addr) && (addr < self.start_addr + VIRTIO_SIZE)
    }

    /// Reads a register; reads always succeed, and offsets without a register read as 0.
    pub fn load(&self, addr: u64, _size: u64) -> (r: Result<u64, Exception>)
        requires
            self@.start_addr <= addr,
        ensures
            r == Ok::<u64, Exception>(self@.mmio_read((addr - self@.start_addr) as u64)),
    {
        let rel = addr - self.start_addr;
        let v = if rel == VIRTIO_MMIO_MAGIC_VALUE {
            0x74726976
        } else if rel == VIRTIO_MMIO_VERSION {
            0x2
        } else if rel == VIRTIO_MMIO_DEVICE_ID {
            0x2
        } else if rel == VIRTIO_MMIO_VENDOR_ID {
            0x554d4551
        } else if rel == VIRTIO_MMIO_DEVICE_FEATURES {
            0
        } else if rel == VIRTIO_MMIO_DRIVER_FEATURES {
            self.driver_features
        } else if rel == VIRTIO_MMIO_QUEUE_NUM_MAX {
            8
        } else if rel == VIRTIO_MMIO_QUEUE_PFN {
            self.queue_pfn
        } else if rel == VIRTIO_MMIO_STATUS {
            self.status
        } else if rel == VIRTIO_MMIO_QUEUE_SEL {
            self.queue_sel
        } else if rel == VIRTIO_MMIO_QUEUE_NUM {
            self.queue_num
        } else if rel == VIRTIO_MMIO_GUEST_PAGE_SIZE {
            self.page_size
        } else if rel == VIRTIO_MMIO_QUEUE_NOTIFY {
            self.queue_notify
        } else if rel == VIRTIO_MMIO_QUEUE_DESC_LOW {
            self.desc_addr
        } else if rel == VIRTIO_MMIO_QUEUE_DESC_HIGH {
            self.desc_addr >> 32
        } else if rel == VIRTIO_MMIO_DRIVER_DESC_LOW {
            self.avail_addr
        } else if rel == VIRTIO_MMIO_DRIVER_DESC_HIGH {
            self.avail_addr >> 32
        } else if rel == VIRTIO_MMIO_DEVICE_DESC_LOW {
            self.used_addr
        } else if rel == VIRTIO_MMIO_DEVICE_DESC_HIGH {
            self.used_addr >> 32
        } else {
            0
        };
        Ok(v)
    }

    /// Writes a register; writes always succeed, and writes to offsets without a register
    /// change nothing.
    pub fn store(&mut self, addr: u64, _size: u64, value: u64) -> (r: Result<(), Exception>)
        requires
            old(self)@.start_addr <= addr,
        ensures
            r == Ok::<(), Exception>(()),
            final(self)@ == old(self)@.mmio_write((addr - old(self)@.start_addr) as u64, value),
    {
        let rel = addr - self.start_addr;
        if rel == VIRTIO_MMIO_DEVICE_FEATURES {
            self.driver_features = value;
        } else if rel == VIRTIO_MMIO_GUEST_PAGE_SIZE {
            self.page_size = value;
        } else if rel == VIRTIO_MMIO_QUEUE_SEL {
            self.queue_sel = value;
        } else if rel == VIRTIO_MMIO_QUEUE_NUM {
            self.queue_num = value;
        } else if rel == VIRTIO_MMIO_QUEUE_PFN {
            self.queue_pfn = value;
        } else if rel == VIRTIO_MMIO_QUEUE_NOTIFY {
            self.queue_notify = value;
            if value != QUEUE_IDLE {
                self.notified = true;
            }
        } else if rel == VIRTIO_MMIO_STATUS {
            self.status = value;
        } else if rel == VIRTIO_MMIO_QUEUE_DESC_LOW {
            self.desc_addr = value & 0xffff_ffff;
        } else if rel == VIRTIO_MMIO_QUEUE_DESC_HIGH {
            self.desc_addr = self.desc_addr | ((value & 0xffff_ffff) << 32);
        } else if rel == VIRTIO_MMIO_DRIVER_DESC_LOW {
            self.avail_addr = value & 0xffff_ffff;
        } else if rel == VIRTIO_MMIO_DRIVER_DESC_HIGH {
            self.avail_addr = self.avail_addr | ((value & 0xffff_ffff) << 32);
        } else if rel == VIRTIO_MMIO_DEVICE_DESC_LOW {
            self.used_addr = value & 0xffff_ffff;
        } else if rel == VIRTIO_MMIO_DEVICE_DESC_HIGH {
            self.used_addr = self.used_addr | ((value & 0xffff_ffff) << 32);
        }
        assert(self@ =~= old(self)@.mmio_write(rel, value));
        Ok(())
    }

    /// Takes the pending queue notification, if any.
    pub fn take_notification(&mut self) -> (n: bool)
        ensures
            n == old(self)@.notified,
            final(self)@ == (VirtioState { notified: false, ..old(self)@ }),
    {
        let n = self.notified;
        self.notified = false;
        assert(self@ =~= (VirtioState { notified: false, ..old(self)@ }));
        n
    }

    /// Appends `binary` to the disk image.
    pub fn set_disk_image(&mut self, binary: Vec<u8>)
        ensures
            final(self)@ == (VirtioState { disk: old(self)@.disk + binary@, ..old(self)@ }),
    {
        let mut binary = binary;
        let ghost b = binary@;
        self.disk.append(&mut binary);
        assert(self@ =~= (VirtioState { disk: old(self)@.disk + b, ..old(self)@ }));
    }

    /// Byte `addr` of the disk image.
    fn read_disk(&self, addr: u64) -> (b: u8)
        requires
            addr < self.disk.len(),
        ensures
            b == self.disk@[addr as int],
    {
        self.disk[addr as usize]
    }

    /// Whether a queue notification is waiting to be served.
    pub fn has_pending_work(&self) -> (b: bool)
        ensures
            b == (self@.queue_notify != QUEUE_IDLE),
    {
        self.queue_notify != QUEUE_IDLE
    }

    /// Serves the request the guest notified: reads the descriptor chain from guest memory,
    /// moves the data between the guest buffer and the disk image, clears the status byte and
    /// appends to the used ring. An error means that an address or offset of the request
    /// overflows or falls outside memory or the disk image.
    pub fn disk_access(&mut self, dram: &mut Dram) -> (r: Result<(), DiskAccessError>)
        ensures
            final(dram).dram_base == old(dram).dram_base,
            r is Ok <==> disk_access_spec(old(self)@, old(dram).dram@, old(dram).dram_base) is Some,
            r is Ok ==> disk_access_spec(old(self)@, old(dram).dram@, old(dram).dram_base) == Some(
                (final(self)@, final(dram).dram@),
            ),
            r is Err ==> r == Err::<(), DiskAccessError>(
                disk_access_failure(old(self)@, old(dram).dram@, old(dram).dram_base),
            ),
            (final(self)@, final(dram).dram@) == disk_access_state(
                old(self)@,
                old(dram).dram@,
                old(dram).dram_base,
            ),
    {
        let ghost v0 = self@;
        let ghost m0 = dram.dram@;
        let base = dram.dram_base;
        if self.queue_notify == QUEUE_IDLE {
            return Ok(());
        }
        self.queue_notify = QUEUE_IDLE;
        let ghost v1 = self@;
        assert(v1 =~= (VirtioState { queue_notify: QUEUE_IDLE, ..v0 }));
        let avail_idx = match read_at_exec(dram, self.avail_addr, 2, 16) {
            None => return Ok(()),
            Some(v) => v as u16,
        };
        if avail_idx == 0 {
            return Ok(());
        }
        let c = match self.read_chain_exec(dram, avail_idx) {
            None => return Err(DiskAccessError::GuestAddress),
            Some(c) => c,
        };
        if !self.transfer(dram, &c) {
            return Err(DiskAccessError::DiskOffset);
        }
        if !self.complete_exec(dram, &c) {
            return Err(DiskAccessError::GuestAddress);
        }
        Ok(())
    }

    fn read_chain_exec(&self, dram: &Dram, avail_idx: u16) -> (r: Option<DescChain>)
        requires
            avail_idx != 0,
        ensures
            r == read_chain(self@, dram.dram@, dram.dram_base, avail_idx),
    {
        let ring_pos = ((avail_idx - 1) as u64) % DESC_NUM;
        let h = match read_at_exec(dram, self.avail_addr, 4 + ring_pos * 2, 16) {
            None => return None,
            Some(h) => h,
        };
        let head = h as u16;
        let d0 = match self.desc_addr.checked_add(VRING_DESC_SIZE * (head as u64)) {
            None => return None,
            Some(d) => d,
        };
        let addr0 = read_at_exec(dram, d0, 0, 64);
        let len0 = read_at_exec(dram, d0, 8, 32);
        let flags0 = read_at_exec(dram, d0, 12, 16);
        let next0 = read_at_exec(dram, d0, 14, 16);
        let (addr0, n0) = match (addr0, len0, flags0, next0) {
            (Some(a), Some(_), Some(_), Some(n)) => (a, n),
            _ => return None,
        };
        let d1 = match self.desc_addr.checked_add(VRING_DESC_SIZE * ((n0 as u16) as u64)) {
            None => return None,
            Some(d) => d,
        };
        let addr1 = read_at_exec(dram, d1, 0, 64);
        let len1 = read_at_exec(dram, d1, 8, 32);
        let flags1 = read_at_exec(dram, d1, 12, 16);
        let next1 = read_at_exec(dram, d1, 14, 16);
        let (addr1, l1, f1, n1) = match (addr1, len1, flags1, next1) {
            (Some(a), Some(l), Some(f), Some(n)) => (a, l, f, n),
            _ => return None,
        };
        let d2 = match self.desc_addr.checked_add(VRING_DESC_SIZE * ((n1 as u16) as u64)) {
            None => return None,
            Some(d) => d,
        };
        let addr2 = read_at_exec(dram, d2, 0, 64);
        let len2 = read_at_exec(dram, d2, 8, 32);
        let flags2 = read_at_exec(dram, d2, 12, 16);
        let sector = read_at_exec(dram, addr0, 8, 64);
        match (addr2, len2, flags2, sector) {
            (Some(a2), Some(_), Some(_), Some(s)) => Some(
                DescChain { head, len1: l1 as u32, flags1: f1 as u16, addr1, addr2: a2, sector: s },
            ),
            _ => None,
        }
    }

    fn transfer(&mut self, dram: &mut Dram, c: &DescChain) -> (ok: bool)
        ensures
            final(dram).dram_base == old(dram).dram_base,
            ok == transfer_ok(old(self)@.disk, old(dram).dram@, old(dram).dram_base, *c),
            ok ==> final(self)@ == (if c.flags1 & 2 != 0 {
                old(self)@
            } else {
                VirtioState {
                    disk: disk_after_write(old(self)@.disk, old(dram).dram@, old(dram).dram_base, *c),
                    ..old(self)@
                }
            }),
            !ok ==> final(self)@ == old(self)@ && final(dram).dram@ == old(dram).dram@,
            ok ==> final(dram).dram@ == (if c.flags1 & 2 != 0 {
                mem_after_read(old(self)@.disk, old(dram).dram@, old(dram).dram_base, *c)
            } else {
                old(dram).dram@
            }),
    {
        let base = dram.dram_base;
        let len = c.len1 as u64;
        if len == 0 {
            assert(disk_after_write(self@.disk, dram.dram@, base, *c) =~= self@.disk);
            assert(mem_after_read(self@.disk, dram.dram@, base, *c) =~= dram.dram@);
            assert(self@ =~= (VirtioState { disk: self@.disk, ..self@ }));
            return true;
        }
        let last_addr = match c.addr1.checked_add(len - 1) {
            None => return false,
            Some(a) => a,
        };
        if c.addr1 < base || c.addr1 - base > dram.dram.len() as u64 || len > dram.dram.len()
            as u64 - (c.addr1 - base) {
            return false;
        }
        let start = match c.sector.checked_mul(SECTOR_SIZE) {
            None => return false,
            Some(s) => s,
        };
        if start.checked_add(len - 1).is_none() {
            return false;
        }
        if start > self.disk.len() as u64 || len > self.disk.len() as u64 - start {
            return false;
        }
        let mstart = (c.addr1 - base) as usize;
        let dstart = start as usize;
        let n = len as usize;
        let ghost disk0 = self.disk@;
        let ghost mem0 = dram.dram@;
        let ghost vold = self@;
        if c.flags1 & 2 == 0 {
            let mut i: usize = 0;
            while i < n
                invariant
                    i <= n,
                    n == c.len1,
                    mstart == c.addr1 - base,
                    dstart == c.sector * SECTOR_SIZE,
                    mstart + n <= dram.dram.len(),
                    dstart + n <= self.disk.len(),
                    mem0.len() == dram.dram.len(),
                    disk0.len() == self.disk.len(),
                    dram.dram@ == mem0,
                    self@ == (VirtioState { disk: self.disk@, ..vold }),
                    forall|j: int|
                        0 <= j < disk0.len() ==> #[trigger] self.disk@[j] == (if dstart <= j < dstart
                            + i {
                            mem0[mstart + (j - dstart)]
                        } else {
                            disk0[j]
                        }),
                decreases n - i,
            {
                let b = dram.dram[mstart + i];
                self.disk.set(dstart + i, b);
                i = i + 1;
            }
            assert(self.disk@ =~= disk_after_write(disk0, mem0, base, *c));
            assert(self@ =~= (VirtioState { disk: disk_after_write(disk0, mem0, base, *c), ..vold }));
        } else {
            let mut i: usize = 0;
            while i < n
                invariant
                    i <= n,
                    n == c.len1,
                    mstart == c.addr1 - base,
                    dstart == c.sector * SECTOR_SIZE,
                    mstart + n <= dram.dram.len(),
                    dstart + n <= self.disk.len(),
                    mem0.len() == dram.dram.len(),
                    disk0.len() == self.disk.len(),
                    self@ == vold,
                    self.disk@ == disk0,
                    dram.dram_base == base,
                    forall|j: int|
                        0 <= j < mem0.len() ==> #[trigger] dram.dram@[j] == (if mstart <= j < mstart
                            + i {
                            disk0[dstart + (j - mstart)]
                        } else {
                            mem0[j]
                        }),
                decreases n - i,
            {
                let b = self.read_disk((dstart + i) as u64);
                dram.dram.set(mstart + i, b);
                i = i + 1;
            }
            assert(dram.dram@ =~= mem_after_read(disk0, mem0, base, *c));
        }
        true
    }

    fn complete_exec(&self, dram: &mut Dram, c: &DescChain) -> (ok: bool)
        ensures
            final(dram).dram_base == old(dram).dram_base,
            ok ==> complete_request(old(dram).dram@, old(dram).dram_base, self@, *c) == Some(
                final(dram).dram@,
            ),
            !ok ==> complete_request(old(dram).dram@, old(dram).dram_base, self@, *c) is None,
            final(dram).dram@ == complete_partial(old(dram).dram@, old(dram).dram_base, self@, *c),
    {
        if !write_at_exec(dram, c.addr2, 0, 8, 0) {
            return false;
        }
        let used_idx = match read_at_exec(dram, self.used_addr, 2, 16) {
            None => return false,
            Some(u) => u as u16,
        };
        let used_pos = (used_idx as u64) % DESC_NUM;
        let elem = match self.used_addr.checked_add(4 + used_pos * 8) {
            None => return false,
            Some(e) => e,
        };
        if !write_at_exec(dram, elem, 0, 32, c.head as u64) {
            return false;
        }
        if !write_at_exec(dram, elem, 4, 32, c.len1 as u64) {
            return false;
        }
        write_at_exec(dram, self.used_addr, 2, 16, used_idx.wrapping_add(1) as u64)
    }

    /// The disk image.
    pub fn disk_snapshot(&self) -> (d: Vec<u8>)
        ensures
            d@ == self@.disk,
    {
        self.disk.clone()
    }

    /// The saved form of this device.
    pub fn to_snapshot(&self) -> (s: VirtioSnapshot)
        ensures
            s.start_addr == self.start_addr,
            s.id == self.id,
            s.driver_features == self.driver_features,
            s.page_size == self.page_size,
            s.queue_sel == self.queue_sel,
            s.queue_num == self.queue_num,
            s.queue_pfn == self.queue_pfn,
            s.queue_notify == self.queue_notify,
            s.desc_addr == self.desc_addr,
            s.avail_addr == self.avail_addr,
            s.used_addr == self.used_addr,
            s.status == self.status,
            s.disk@ == self@.disk,
    {
        VirtioSnapshot {
            start_addr: self.start_addr,
            id: self.id,
            driver_features: self.driver_features,
            page_size: self.page_size,
            queue_sel: self.queue_sel,
            queue_num: self.queue_num,
            queue_pfn: self.queue_pfn,
            queue_notify: self.queue_notify,
            desc_addr: self.desc_addr,
            avail_addr: self.avail_addr,
            used_addr: self.used_addr,
            status: self.status,
            disk: self.disk.clone(),
        }
    }

    /// The device saved in `snapshot`, with no notification outstanding.
    pub fn from_snapshot(snapshot: VirtioSnapshot) -> (v: Virtio)
        ensures
            v@ == (VirtioState {
                start_addr: snapshot.start_addr,
                id: snapshot.id,
                driver_features: snapshot.driver_features,
                page_size: snapshot.page_size,
                queue_sel: snapshot.queue_sel,
                queue_num: snapshot.queue_num,
                queue_pfn: snapshot.queue_pfn,
                desc_addr: snapshot.desc_addr,
                avail_addr: snapshot.avail_addr,
                used_addr: snapshot.used_addr,
                queue_notify: snapshot.queue_notify,
                status: snapshot.status,
                disk: snapshot.disk@,
                notified: false,
            }),
    {
        Virtio {
            start_addr: snapshot.start_addr,
            id: snapshot.id,
            driver_features: snapshot.driver_features,
            page_size: snapshot.page_size,
            queue_sel: snapshot.queue_sel,
            queue_num: snapshot.queue_num,
            queue_pfn: snapshot.queue_pfn,
            desc_addr: snapshot.desc_addr,
            avail_addr: snapshot.avail_addr,
            used_addr: snapshot.used_addr,
            queue_notify: snapshot.queue_notify,
            status: snapshot.status,
            disk: snapshot.disk,
            notified: false,
        }
    }
}


/// The disk image keeps its size: register writes leave it alone, serving a request does not
/// change its size whether or not it succeeds, and an empty image stays empty.
pub proof fn lemma_disk_size_kept(v: VirtioState, mem: Seq<u8>, base: u64, rel: u64, value: u64)
    ensures
        v.mmio_write(rel, value).disk == v.disk,
        disk_access_state(v, mem, base).0.disk.len() == v.disk.len(),
        v.disk.len() == 0 ==> disk_access_state(v, mem, base).0.disk == v.disk,
{
    let d = disk_access_state(v, mem, base).0.disk;
    if v.disk.len() == 0 {
        assert(d =~= v.disk);
    }
}


/// The little-endian value of `n` bytes depends only on those bytes.
proof fn lemma_le_frame(m1: Seq<u8>, m2: Seq<u8>, i: int, n: nat)
    requires
        0 <= i,
        i + n <= m1.len(),
        m1.len() == m2.len(),
        forall|j: int| i <= j < i + n ==> m1[j] == m2[j],
    ensures
        le_value(m1, i, n) == le_value(m2, i, n),
    decreases n,
{
    if n > 0 {
        lemma_le_frame(m1, m2, i + 1, (n - 1) as nat);
    }
}

/// A 16-bit read gives a value below 2^16.
proof fn lemma_read16_bound(mem: Seq<u8>, base: u64, a: u64, off: u64)
    ensures
        read_at(mem, base, a, off, 16) matches Some(h) ==> h < 0x1_0000,
{
    if let Some(h) = read_at(mem, base, a, off, 16) {
        reveal_with_fuel(le_value, 3);
        let i = a + off - base;
        assert(le_value(mem, i, 2) == mem[i] + 256 * (mem[i + 1] + 256 * le_value(mem, i + 2, 0)));
    }
}

/// The request served is the one the avail ring names: the chain's head descriptor is the
/// 16-bit entry of the avail ring at position `(avail_idx - 1) % DESC_NUM`.
pub proof fn lemma_chain_head_from_avail_ring(v: VirtioState, mem: Seq<u8>, base: u64, avail_idx: u16)
    requires
        avail_idx != 0,
        read_chain(v, mem, base, avail_idx) is Some,
    ensures
        read_at(mem, base, v.avail_addr, (4 + ((avail_idx - 1) % 8) * 2) as u64, 16) == Some(
            read_chain(v, mem, base, avail_idx)->0.head as u64,
        ),
{
    lemma_read16_bound(mem, base, v.avail_addr, (4 + ((avail_idx - 1) % 8) * 2) as u64);
}

/// Completing a request records it in the used ring: afterwards the used index `u` has moved
/// on past a slot `p` (`p == (u - 1) % DESC_NUM`) whose element holds the chain's head
/// descriptor index and the length of its data buffer.
pub proof fn lemma_completion_records_head(mem: Seq<u8>, base: u64, v: VirtioState, c: DescChain)
    requires
        complete_request(mem, base, v, c) is Some,
    ensures
        ({
            let m = complete_request(mem, base, v, c)->0;
            exists|p: int|
                0 <= p < 8 && #[trigger] read_at(m, base, v.used_addr, (4 + p * 8) as u64, 32) == Some(
                    c.head as u64,
                ) && read_at(m, base, v.used_addr, (8 + p * 8) as u64, 32) == Some(c.len1 as u64)
                    && (read_at(m, base, v.used_addr, 2, 16) matches Some(u) && (u + 7) % 8 == p)
        }),
{
    let m1 = write_at(mem, base, c.addr2, 0, 8, 0)->0;
    let ui = read_at(m1, base, v.used_addr, 2, 16)->0;
    let used_idx = ui as u16;
    let pos = (used_idx as int % 8) as u64;
    let elem = (v.used_addr + 4 + pos * 8) as u64;
    let m2 = write_at(m1, base, elem, 0, 32, c.head as u64)->0;
    let m3 = write_at(m2, base, elem, 4, 32, c.len1 as u64)->0;
    let nv = used_idx.wrapping_add(1) as u64;
    let m4 = write_at(m3, base, v.used_addr, 2, 16, nv)->0;
    assert(m4 == complete_request(mem, base, v, c)->0);
    let ie = elem - base;
    let iu = v.used_addr + 2 - base;
    // the id: written into m2, untouched by the two later writes
    lemma_store_load(m1, ie, 4, c.head as u64, 0);
    assert forall|j: int| ie <= j < ie + 4 implies m2[j] == m4[j] by {
        lemma_store_load(m2, ie + 4, 4, c.len1 as u64, j);
        lemma_store_load(m3, iu, 2, nv, j);
    }
    lemma_le_frame(m2, m4, ie, 4);
    // the length: written into m3, untouched by the used index
    lemma_store_load(m2, ie + 4, 4, c.len1 as u64, 0);
    assert forall|j: int| ie + 4 <= j < ie + 8 implies m3[j] == m4[j] by {
        lemma_store_load(m3, iu, 2, nv, j);
    }
    lemma_le_frame(m3, m4, ie + 4, 4);
    // the used index
    lemma_store_load(m3, iu, 2, nv, 0);
    let hd = c.head as u64;
    let ln = c.len1 as u64;
    let h16 = c.head;
    let l32 = c.len1;
    assert(nv & 0xffff == nv && hd & 0xffff_ffff == hd && ln & 0xffff_ffff == ln) by (bit_vector)
        requires
            nv == used_idx.wrapping_add(1) as u64,
            hd == h16 as u64,
            ln == l32 as u64,
    ;
    assert(((nv as int) + 7) % 8 == pos) by (nonlinear_arith)
        requires
            nv == (if used_idx as int + 1 > 0xffff { used_idx as int + 1 - 0x1_0000 } else { used_idx as int + 1 }),
            pos == used_idx as int % 8,
            0 <= used_idx <= 0xffff,
    ;
    let p = pos as int;
    assert(read_at(m4, base, v.used_addr, (4 + p * 8) as u64, 32) == Some(c.head as u64));
    assert(read_at(m4, base, v.used_addr, (8 + p * 8) as u64, 32) == Some(c.len1 as u64));
}


/// The device's registers read back: writing the page size (0x28), queue select (0x30),
/// queue size (0x38), queue page number (0x40), queue notify (0x50) or status (0x70) and
/// reading the same offset gives the value written; the identification registers read as
/// "virt" (0x74726976) at 0x0, version 2, device 2 (block device) and vendor 0x554d4551,
/// whatever was written; the maximal queue size reads 8.
pub proof fn lemma_mmio_registers(v: VirtioState, rel: u64, value: u64)
    ensures
        (rel == 0x28 || rel == 0x30 || rel == 0x38 || rel == 0x40 || rel == 0x50 || rel == 0x70)
            ==> v.mmio_write(rel, value).mmio_read(rel) == value,
        v.mmio_read(0x0) == 0x74726976,
        v.mmio_read(0x4) == 2,
        v.mmio_read(0x8) == 2,
        v.mmio_read(0xc) == 0x554d4551,
        v.mmio_read(0x34) == 8,
        v.mmio_write(rel, value).mmio_read(0x0) == 0x74726976,
{
}

} // verus!
