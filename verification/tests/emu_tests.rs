use rv_emu::bus::VIRTIO_BASE;
use rv_emu::cpu::Halt;
use rv_emu::emu::{Emu, EmuSnapshot, Event, ExecMode, RunCounters, RunEvent};

/// addi x5, x0, 0 ; addi x6, x0, 0 ; loop: addi x5, x5, 1 ; add x6, x6, x5 ; jal x0, loop
fn counting_loop() -> Vec<u8> {
    let words: [u32; 5] = [0x0000_0293, 0x0000_0313, 0x0012_8293, 0x0053_0333, 0xff9f_f06f];
    words.iter().flat_map(|w| w.to_le_bytes()).collect()
}

fn make_emu(binary: Vec<u8>, base_addr: u64) -> Emu {
    let mut emu = Emu::new(binary, base_addr, 0, u64::MAX);
    emu.exec_mode = ExecMode::Continue;
    emu
}

fn run_for(emu: &mut Emu, iteration: u64) -> RunEvent {
    let mut counters = RunCounters::new();
    emu.run_for(iteration, &mut counters)
}

fn capture_state(emu: &Emu) -> ([u64; 32], u64, u64, Vec<u64>) {
    (emu.cpu.regs, emu.cpu.pc, emu.cpu.mode, emu.cpu.csr.to_snapshot().csr.to_vec())
}

fn triangle(n: u64) -> u64 {
    n * (n + 1) / 2
}

#[test]
fn run_for_stops_at_the_cycle_target() {
    let mut emu = make_emu(counting_loop(), 0);
    assert_eq!(run_for(&mut emu, 100), RunEvent::Event(Event::DoneStep));
    assert!(emu.cpu.cycle >= 100);
    let i = emu.cpu.regs[5];
    assert!(i > 0);
    assert_eq!(emu.cpu.regs[6], triangle(i));
    assert!(emu.cpu.halt.is_none());
}

#[test]
fn test_snapshot_registers_and_csrs_reproducible() {
    const SNAPSHOT_AT: u64 = 50000;
    const RUN_TOTAL: u64 = 200000;

    let mut emu1 = make_emu(counting_loop(), 0);
    run_for(&mut emu1, SNAPSHOT_AT);
    let mid_snapshot = emu1.to_snapshot();
    run_for(&mut emu1, RUN_TOTAL);
    let state1 = capture_state(&emu1);

    let mut emu2 = Emu::from_snapshot(mid_snapshot);
    emu2.exec_mode = ExecMode::Continue;
    run_for(&mut emu2, RUN_TOTAL);
    let state2 = capture_state(&emu2);

    assert_eq!(state1, state2);
}

#[test]
fn test_snapshot_virtio_disk_preserved() {
    let disk_size = 512 * 4;
    let disk_image: Vec<u8> = (0..disk_size as u8).collect();

    let mut emu = make_emu(counting_loop(), 0);
    emu.set_disk_image(disk_image.clone());
    run_for(&mut emu, 20);

    let snap = emu.to_snapshot();
    let emu2 = Emu::from_snapshot(snap);
    let disk2 = emu2.bus.virtio.as_ref().unwrap().disk_snapshot();
    assert_eq!(disk2, disk_image, "disk image corrupted through snapshot/restore");
}

#[test]
fn snapshot_roundtrip_keeps_state() {
    let mut emu = make_emu(counting_loop(), 0);
    run_for(&mut emu, 30);
    let before = capture_state(&emu);
    let cycle = emu.cpu.cycle;
    let snap: EmuSnapshot = emu.to_snapshot();
    assert!(snap.is_valid());
    let emu2 = Emu::from_snapshot(snap);
    assert_eq!(capture_state(&emu2), before);
    assert_eq!(emu2.cpu.cycle, cycle);
    assert_eq!(emu2.snapshot_interval, 100_000_000);
    assert!(emu2.breakpoints.is_empty());
}

#[test]
fn invalid_snapshot_is_detected() {
    let emu = make_emu(counting_loop(), 0);
    let mut snap = emu.to_snapshot();
    snap.dram.dram.truncate(16);
    assert!(!snap.is_valid());
}

#[test]
fn step_mode_runs_one_instruction() {
    let mut emu = make_emu(counting_loop(), 0);
    emu.exec_mode = ExecMode::Step;
    assert_eq!(run_for(&mut emu, 1000), RunEvent::Event(Event::DoneStep));
    assert_eq!(emu.cpu.pc, 4);
    assert_eq!(emu.cpu.cycle, 1);
}

#[test]
fn breakpoint_stops_the_run() {
    let mut emu = make_emu(counting_loop(), 0);
    emu.breakpoints.push(8);
    assert_eq!(run_for(&mut emu, 1000), RunEvent::Event(Event::Break));
    assert_eq!(emu.cpu.pc, 8);
    assert!(emu.at_breakpoint());
    // stepping onto a breakpoint reports it
    let mut emu = make_emu(counting_loop(), 0);
    emu.breakpoints.push(4);
    assert_eq!(emu.step(), Some(Event::Break));
    assert_eq!(emu.step(), None);
}

#[test]
fn snapshot_due_after_interval() {
    let mut emu = Emu::new(counting_loop(), 0, 0, 8);
    let mut counters = RunCounters::new();
    let mut saw_snapshot = false;
    for _ in 0..10 {
        match emu.run_for(200, &mut counters) {
            RunEvent::SnapshotDue => saw_snapshot = true,
            RunEvent::Event(Event::DoneStep) => break,
            other => panic!("unexpected {:?}", other),
        }
    }
    assert!(saw_snapshot);
    assert!(counters.since_snapshot <= 8);
    let mut emu = Emu::new(counting_loop(), 0, 0, 4);
    emu.step();
    emu.step();
    emu.step();
    assert!(!emu.snapshot_due());
    emu.step();
    assert!(emu.snapshot_due());
}

#[test]
fn halted_run_reports_halted() {
    // csrrwi x0, mtvec, 2 ; ecall: the trap vector has an unknown mode
    let words: [u32; 2] = [0x3051_5073, 0x0000_0073];
    let code: Vec<u8> = words.iter().flat_map(|w| w.to_le_bytes()).collect();
    let mut emu = make_emu(code, 0);
    assert_eq!(run_for(&mut emu, 100), RunEvent::Event(Event::Halted));
    assert_eq!(emu.cpu.halt, Some(Halt::BadTrapVector));
}

#[test]
fn finished_program_halts_when_stepping() {
    // jalr x0, 0(x0)
    let mut emu = make_emu(0x0000_0067u32.to_le_bytes().to_vec(), 0x8000_0000);
    assert_eq!(emu.step(), Some(Event::Halted));
    assert_eq!(emu.cpu.halt, Some(Halt::Finished));
}

#[test]
fn entry_point_moves_the_program_counter() {
    let mut emu = make_emu(counting_loop(), 0);
    emu.set_entry_point(8);
    assert_eq!(emu.cpu.pc, 8);
}

#[test]
fn debugger_reads_and_writes_memory() {
    let mut emu = make_emu(counting_loop(), 0x8000_0000);
    let bytes = emu.read_addrs(0x8000_0000, 11).unwrap();
    assert_eq!(bytes, counting_loop()[..11].to_vec());
    assert_eq!(emu.write_addrs(0x8000_0100, &[1, 2, 3, 4, 5, 6, 7, 8, 9]), Ok(()));
    assert_eq!(emu.read_addrs(0x8000_0100, 9).unwrap(), vec![1, 2, 3, 4, 5, 6, 7, 8, 9]);
    assert_eq!(emu.bus.load(0x8000_0100, 64), Ok(0x0807_0605_0403_0201));
    // beyond the end of memory
    assert_eq!(emu.read_addrs(0x8000_0000 + 0x800_0000 - 4, 8), Err(()));
    assert_eq!(emu.write_addrs(0x8000_0000 + 0x800_0000, &[1]), Err(()));
}

#[test]
fn uart_output_reaches_the_bus() {
    // lui x1, 0x10000 ; addi x2, x0, 0x41 ; sb x2, 0(x1) ; jal x0, 0
    let words: [u32; 4] = [0x1000_00b7, 0x0410_0113, 0x0020_8023, 0x0000_006f];
    let code: Vec<u8> = words.iter().flat_map(|w| w.to_le_bytes()).collect();
    let mut emu = make_emu(code, 0x8000_0000);
    run_for(&mut emu, 20);
    assert_eq!(emu.bus.uart.take_output(), b"A".to_vec());
}

#[test]
fn virtio_request_outside_memory_halts_the_run() {
    let base: u64 = 0x8000_0000;
    let mut emu = make_emu(counting_loop(), base);
    emu.set_disk_image(vec![0u8; 1024]);
    let stores: [(u64, u64, u64); 6] = [
        (VIRTIO_BASE + 0x080, 32, 0x1000),
        (VIRTIO_BASE + 0x090, 32, base + 0x2000),
        (VIRTIO_BASE + 0x0a0, 32, base + 0x3000),
        (base + 0x2002, 16, 1),
        (base + 0x2004, 16, 0),
        (VIRTIO_BASE + 0x050, 32, 0),
    ];
    for (addr, size, value) in stores {
        assert_eq!(emu.bus.store(addr, size, value), Ok(()));
    }
    assert_eq!(run_for(&mut emu, 1000), RunEvent::Event(Event::Halted));
    assert_eq!(emu.cpu.halt, Some(Halt::DiskAccess));
}

#[test]
fn debugger_write_reads_back() {
    let base: u64 = 0x8000_0000;
    let mut emu = make_emu(counting_loop(), base);
    let data: Vec<u8> = (0..13u8).map(|i| i * 17 + 3).collect();
    assert_eq!(emu.write_addrs(base + 0x1003, &data), Ok(()));
    assert_eq!(emu.read_addrs(base + 0x1003, data.len()), Ok(data.clone()));
    assert_eq!(emu.read_addrs(base + 0x1002, 1), Ok(vec![0]));
    assert_eq!(emu.read_addrs(base + 0x1003 + 13, 1), Ok(vec![0]));
}
