use rv_emu::bus::Bus;
use rv_emu::dram::{Dram, DRAM_SIZE};
use rv_emu::interrupt::Exception;

#[test]
fn dram_is_zero_filled_after_code() {
    let d = Dram::new(vec![1, 2, 3], 0x8000_0000);
    assert_eq!(d.dram.len() as u64, DRAM_SIZE);
    assert_eq!(d.load(0x8000_0000, 32), Ok(0x0003_0201));
    assert_eq!(d.load(0x8000_0003, 8), Ok(0));
}

#[test]
fn dram_store_then_load_gives_value_cut_to_width() {
    let mut d = Dram::new(vec![], 0x8000_0000);
    assert_eq!(d.store(0x8000_0010, 64, 0x1122_3344_5566_7788), Ok(()));
    assert_eq!(d.load(0x8000_0010, 64), Ok(0x1122_3344_5566_7788));
    assert_eq!(d.load(0x8000_0010, 32), Ok(0x5566_7788));
    assert_eq!(d.load(0x8000_0010, 16), Ok(0x7788));
    assert_eq!(d.load(0x8000_0010, 8), Ok(0x88));
    assert_eq!(d.load(0x8000_0014, 32), Ok(0x1122_3344));
    assert_eq!(d.store(0x8000_0010, 8, 0xabcd), Ok(()));
    assert_eq!(d.load(0x8000_0010, 64), Ok(0x1122_3344_5566_77cd));
    // neighbours are untouched
    assert_eq!(d.load(0x8000_0018, 64), Ok(0));
}

#[test]
fn dram_rejects_odd_widths() {
    let mut d = Dram::new(vec![], 0);
    assert_eq!(d.load(0, 24), Err(Exception::LoadAccessFault));
    assert_eq!(d.store(0, 24, 1), Err(Exception::StoreAMOAccessFault));
}

#[test]
fn bus_routes_memory_and_faults_below_it() {
    let mut bus = Bus::new(vec![0x13, 0, 0, 0], 0x8000_0000);
    assert_eq!(bus.load(0x8000_0000, 32), Ok(0x13));
    assert_eq!(bus.store(0x8000_0100, 32, 0xdead_beef), Ok(()));
    assert_eq!(bus.load(0x8000_0100, 32), Ok(0xdead_beef));
    // nothing is mapped at 0x1000
    assert_eq!(bus.load(0x1000, 32), Err(Exception::LoadAccessFault));
    assert_eq!(bus.store(0x1000, 32, 1), Err(Exception::StoreAMOAccessFault));
    assert!(!bus.is_access_defined(0x8000_0000 + DRAM_SIZE - 4, 64));
    assert!(bus.is_access_defined(0x8000_0000 + DRAM_SIZE - 8, 64));
}
