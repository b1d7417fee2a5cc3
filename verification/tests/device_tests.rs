use rv_emu::bus::{Bus, PLIC_BASE, UART_BASE, VIRTIO_BASE};
use rv_emu::cpu::tlb::Tlb;
use rv_emu::cpu::{Cpu, CLINT_BASE};
use rv_emu::interrupt::{Interrupt, InterruptList, INTERRUPT_BIT};
use rv_emu::plic::{ExternalInterrupt, Plic, CLAIM_COMPLETE, PENDING_INDEX};
use rv_emu::uart::Uart;
use rv_emu::virtio::{DiskAccessError, Virtio};

const BASE: u64 = 0x8000_0000;

#[test]
fn uart_reads_back_input_in_order() {
    let mut bus = Bus::new(vec![], BASE);
    // nothing waiting: RHR reads 0 and LSR shows only the transmitter ready
    assert_eq!(bus.load(UART_BASE, 8), Ok(0));
    assert_eq!(bus.load(UART_BASE + 5, 8), Ok(0x60));
    bus.receive_input(b"hi");
    assert_eq!(bus.plic.pending_queue, vec![ExternalInterrupt::UartInput]);
    assert_eq!(bus.load(UART_BASE + 5, 8), Ok(0x61));
    assert_eq!(bus.load(UART_BASE, 8), Ok(b'h' as u64));
    assert_eq!(bus.load(UART_BASE, 8), Ok(b'i' as u64));
    assert_eq!(bus.load(UART_BASE + 5, 8), Ok(0x60));
    // only byte accesses are served
    assert!(bus.load(UART_BASE, 32).is_err());
}

#[test]
fn uart_collects_output() {
    let mut uart = Uart::new(UART_BASE);
    assert_eq!(uart.store(UART_BASE, 8, 0x141), Ok(()));
    assert_eq!(uart.store(UART_BASE, 8, b'B' as u64), Ok(()));
    assert_eq!(uart.take_output(), b"AB".to_vec());
    assert!(uart.take_output().is_empty());
    assert_eq!(uart.to_snapshot().start_addr, UART_BASE);
}

#[test]
fn no_input_posts_nothing() {
    let mut bus = Bus::new(vec![], BASE);
    bus.receive_input(&[]);
    assert!(bus.plic.pending_queue.is_empty());
}

#[test]
fn plic_delivers_and_claims_device_interrupts() {
    let mut plic = Plic::new(PLIC_BASE);
    let mut ints = InterruptList::new();
    plic.notify(ExternalInterrupt::VirtioDiskIO);
    plic.process_pending_interrupts(&mut ints);
    assert!(ints.contains(Interrupt::SupervisorExternalInterrupt));
    assert_eq!(plic.regs[PENDING_INDEX], 1 << 1);
    assert_eq!(plic.load(PLIC_BASE + CLAIM_COMPLETE, 32, &mut ints), Ok(1));
    assert!(!ints.contains(Interrupt::SupervisorExternalInterrupt));
    assert_eq!(plic.regs[PENDING_INDEX], 0);
    // nothing left: a claim answers 0
    assert_eq!(plic.load(PLIC_BASE + CLAIM_COMPLETE, 32, &mut ints), Ok(0));
}

#[test]
fn plic_claims_uart_first_on_equal_priority() {
    let mut plic = Plic::new(PLIC_BASE);
    let mut ints = InterruptList::new();
    plic.notify(ExternalInterrupt::VirtioDiskIO);
    plic.notify(ExternalInterrupt::UartInput);
    plic.process_pending_interrupts(&mut ints);
    assert_eq!(plic.load(PLIC_BASE + CLAIM_COMPLETE, 32, &mut ints), Ok(10));
    assert!(ints.contains(Interrupt::SupervisorExternalInterrupt));
    assert_eq!(plic.load(PLIC_BASE + CLAIM_COMPLETE, 32, &mut ints), Ok(1));
    assert!(!ints.contains(Interrupt::SupervisorExternalInterrupt));
    let snap = plic.to_snapshot();
    assert!(snap.external_interrupt_list.is_empty());
    assert_eq!(ExternalInterrupt::UartInput.id(), 10);
    assert_eq!(ExternalInterrupt::VirtioDiskIO.id(), 1);
}

#[test]
fn clint_keeps_stores_and_reads_zero() {
    let mut cpu = Cpu::new(BASE, 0);
    let mut bus = Bus::new(vec![], BASE);
    assert_eq!(cpu.store(&mut bus, CLINT_BASE + 0x4000, 64, 1234), Ok(()));
    assert_eq!(cpu.clint.registers[0x4000 / 8], 1234);
    assert_eq!(cpu.load(&mut bus, CLINT_BASE + 0x4000, 64), Ok(0));
}

#[test]
fn interrupt_list_is_a_set_walked_by_code() {
    let mut l = InterruptList::new();
    assert!(l.is_empty());
    l.insert(Interrupt::MachineExternalInterrupt);
    l.insert(Interrupt::SupervisorSoftwareInterrupt);
    l.insert(Interrupt::MachineExternalInterrupt);
    assert_eq!(
        l.to_vec(),
        vec![Interrupt::SupervisorSoftwareInterrupt, Interrupt::MachineExternalInterrupt]
    );
    l.remove(Interrupt::SupervisorSoftwareInterrupt);
    assert!(!l.contains(Interrupt::SupervisorSoftwareInterrupt));
    assert!(l.contains(Interrupt::MachineExternalInterrupt));
    let m = InterruptList::from_slice(&l.to_vec());
    assert_eq!(m.to_vec(), l.to_vec());
    assert_eq!(Interrupt::MachineTimerInterrupt.code(), 7);
    assert_eq!(Interrupt::SupervisorExternalInterrupt.bit_code(), INTERRUPT_BIT | (1 << 9));
}

#[test]
fn tlb_maps_keys_to_pages() {
    let mut t = Tlb::new();
    assert_eq!(t.get((1, 2, 3)), None);
    t.insert((1, 2, 3), 0x80);
    t.insert((1, 2, 4), 0x81);
    t.insert((1, 2, 3), 0x90);
    assert_eq!(t.get((1, 2, 3)), Some(0x90));
    assert_eq!(t.get((1, 2, 4)), Some(0x81));
    let copy = Tlb::from_entries(&t.to_entries());
    assert_eq!(copy.get((1, 2, 3)), Some(0x90));
    t.clear();
    assert_eq!(t.get((1, 2, 4)), None);
}

fn store(bus: &mut Bus, addr: u64, size: u64, value: u64) {
    assert_eq!(bus.store(addr, size, value), Ok(()));
}

/// Lays out a three-descriptor request for `sector` with data buffer `buf`; `device_writes`
/// selects a read from the disk.
fn request(bus: &mut Bus, avail_idx: u16, sector: u64, buf: u64, device_writes: bool) {
    let desc = BASE + 0x1000;
    let avail = BASE + 0x2000;
    let header = BASE + 0x4000;
    let status = BASE + 0x6000;
    store(bus, header + 8, 64, sector);
    store(bus, desc, 64, header);
    store(bus, desc + 8, 32, 16);
    store(bus, desc + 12, 16, 1);
    store(bus, desc + 14, 16, 1);
    store(bus, desc + 16, 64, buf);
    store(bus, desc + 24, 32, 512);
    store(bus, desc + 28, 16, if device_writes { 3 } else { 1 });
    store(bus, desc + 30, 16, 2);
    store(bus, desc + 32, 64, status);
    store(bus, desc + 40, 32, 1);
    store(bus, desc + 44, 16, 2);
    store(bus, desc + 46, 16, 0);
    store(bus, avail + 2, 16, avail_idx as u64);
    store(bus, avail + 4 + 2 * ((avail_idx as u64 - 1) % 8), 16, 0);
    store(bus, status, 8, 0xff);
    // notify the queue
    store(bus, VIRTIO_BASE + 0x050, 32, 0);
}

fn virtio_bus() -> Bus {
    let mut bus = Bus::new(vec![], BASE);
    bus.virtio.as_mut().unwrap().set_disk_image(vec![0u8; 2048]);
    store(&mut bus, VIRTIO_BASE + 0x080, 32, BASE + 0x1000);
    store(&mut bus, VIRTIO_BASE + 0x090, 32, BASE + 0x2000);
    store(&mut bus, VIRTIO_BASE + 0x0a0, 32, BASE + 0x3000);
    bus
}

#[test]
fn virtio_disk_reads_back_what_was_written() {
    let mut bus = virtio_bus();
    for i in 0..512u64 {
        store(&mut bus, BASE + 0x5000 + i, 8, i * 7 % 256);
    }
    request(&mut bus, 1, 1, BASE + 0x5000, false);
    assert_eq!(bus.plic.pending_queue, vec![ExternalInterrupt::VirtioDiskIO]);
    assert_eq!(bus.process_virtio(), Ok(()));
    let disk = bus.virtio.as_ref().unwrap().disk_snapshot();
    assert_eq!(disk.len(), 2048);
    for i in 0..512usize {
        assert_eq!(disk[512 + i], (i * 7 % 256) as u8);
    }
    assert!(disk[..512].iter().all(|b| *b == 0));
    assert_eq!(bus.load(BASE + 0x6000, 8), Ok(0));
    assert_eq!(bus.load(BASE + 0x3000 + 2, 16), Ok(1));
    assert_eq!(bus.load(BASE + 0x3000 + 8, 32), Ok(512));
    // read the sector back into another buffer
    request(&mut bus, 2, 1, BASE + 0x7000, true);
    assert_eq!(bus.process_virtio(), Ok(()));
    for i in 0..512u64 {
        assert_eq!(bus.load(BASE + 0x7000 + i, 8), Ok(i * 7 % 256));
    }
    assert_eq!(bus.load(BASE + 0x3000 + 2, 16), Ok(2));
    // nothing waiting: serving again changes nothing
    assert_eq!(bus.process_virtio(), Ok(()));
}

#[test]
fn virtio_request_past_the_disk_fails() {
    let mut bus = virtio_bus();
    request(&mut bus, 1, 100, BASE + 0x5000, false);
    assert_eq!(bus.process_virtio(), Err(DiskAccessError::DiskOffset));
}

#[test]
fn virtio_unreadable_avail_ring_is_ignored() {
    let mut bus = virtio_bus();
    // the avail ring lies below memory
    store(&mut bus, VIRTIO_BASE + 0x090, 32, 0x1000);
    store(&mut bus, VIRTIO_BASE + 0x050, 32, 0);
    assert_eq!(bus.process_virtio(), Ok(()));
    assert!(!bus.virtio.as_ref().unwrap().has_pending_work());
}

#[test]
fn virtio_request_outside_memory_fails() {
    let mut bus = virtio_bus();
    request(&mut bus, 1, 1, BASE + 0x5000, false);
    // the descriptor table now lies below memory
    store(&mut bus, VIRTIO_BASE + 0x080, 32, 0x1000);
    let before: Vec<u64> = (0..8).map(|i| bus.load(BASE + 0x5000 + 8 * i, 64).unwrap()).collect();
    assert_eq!(bus.process_virtio(), Err(DiskAccessError::GuestAddress));
    // the device gave up: its queue is idle, and memory and the disk are as they were
    assert!(!bus.virtio.as_ref().unwrap().has_pending_work());
    let after: Vec<u64> = (0..8).map(|i| bus.load(BASE + 0x5000 + 8 * i, 64).unwrap()).collect();
    assert_eq!(before, after);
    assert!(bus.virtio.as_ref().unwrap().disk_snapshot().iter().all(|b| *b == 0));
}

#[test]
fn virtio_registers_read_back() {
    let mut bus = virtio_bus();
    assert_eq!(bus.load(VIRTIO_BASE, 32), Ok(0x7472_6976));
    assert_eq!(bus.load(VIRTIO_BASE + 0x080, 32), Ok(BASE + 0x1000));
    assert_eq!(bus.load(VIRTIO_BASE + 0x034, 32), Ok(8));
}

#[test]
fn device_offsets_past_the_window_read_zero_and_ignore_writes() {
    let mut v = Virtio::new(VIRTIO_BASE);
    assert_eq!(v.store(VIRTIO_BASE + 0x2000, 32, 5), Ok(()));
    assert_eq!(v.load(VIRTIO_BASE + 0x2000, 32), Ok(0));
    assert_eq!(v.load(VIRTIO_BASE, 32), Ok(0x7472_6976));
    let mut u = Uart::new(UART_BASE);
    u.receive(b'a');
    assert_eq!(u.load(UART_BASE + 0x1000, 8), Ok(0));
    assert_eq!(u.store(UART_BASE + 0x1000, 8, 0x41), Ok(()));
    assert!(u.take_output().is_empty());
    assert_eq!(u.load(UART_BASE, 8), Ok(b'a' as u64));
}

#[test]
fn plic_snapshot_roundtrip_keeps_claims() {
    let mut p = Plic::new(PLIC_BASE);
    let mut ints = InterruptList::new();
    p.notify(ExternalInterrupt::UartInput);
    p.process_pending_interrupts(&mut ints);
    p.notify(ExternalInterrupt::VirtioDiskIO);
    let s = p.to_snapshot();
    assert_eq!(s.start_addr, PLIC_BASE);
    let mut q = Plic::from_snapshot(s);
    assert!(q.pending_queue.is_empty());
    let mut ints_q = InterruptList::new();
    assert_eq!(q.load(PLIC_BASE + CLAIM_COMPLETE, 32, &mut ints_q), p.load(PLIC_BASE + CLAIM_COMPLETE, 32, &mut ints));
    assert_eq!(q.load(PLIC_BASE + CLAIM_COMPLETE, 32, &mut ints_q), Ok(0));
}
