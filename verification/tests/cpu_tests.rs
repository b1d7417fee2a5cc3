use rv_emu::bus::Bus;
use rv_emu::cpu::{Cpu, Halt, M_MODE, S_MODE, U_MODE, REG_NUM};
use rv_emu::csr::{MCAUSE, MEDELEG, MEPC, MIDELEG, MSTATUS, MTVEC, SEPC, SIE, SIP, SSTATUS, STVEC, TIME, MASK_MIE};
use rv_emu::interrupt::Interrupt;
use rv_emu::dram::DRAM_SIZE;
use rv_emu::instruction::DecodedInstr;
use rv_emu::interrupt::Exception;

const BASE: u64 = 0x8000_0000;

fn machine() -> (Cpu, Bus) {
    (Cpu::new(BASE, 0), Bus::new(vec![], BASE))
}

fn run(cpu: &mut Cpu, bus: &mut Bus, raw: u32) -> Result<(), Exception> {
    let d = DecodedInstr::decode(raw);
    cpu.execute(bus, &d)
}

#[test]
fn new_cpu_starts_in_machine_mode_with_stack_at_top() {
    let (cpu, _) = machine();
    assert_eq!(cpu.pc, BASE);
    assert_eq!(cpu.regs[2], DRAM_SIZE);
    assert_eq!(cpu.mode, M_MODE);
    assert_eq!(cpu.cycle, 0);
    assert_eq!(cpu.dest, REG_NUM);
    assert!(cpu.halt.is_none());
}

#[test]
fn add_and_sub_wrap_and_mark_registers() {
    let (mut cpu, mut bus) = machine();
    cpu.regs[5] = u64::MAX;
    cpu.regs[6] = 2;
    // add x7, x5, x6
    assert_eq!(run(&mut cpu, &mut bus, 0x0062_83b3), Ok(()));
    assert_eq!(cpu.regs[7], 1);
    assert_eq!((cpu.dest, cpu.src1, cpu.src2), (7, 5, 6));
    // sub x7, x6, x5
    assert_eq!(run(&mut cpu, &mut bus, 0x4053_03b3), Ok(()));
    assert_eq!(cpu.regs[7], 3);
}

#[test]
fn mulh_gives_high_signed_product() {
    let (mut cpu, mut bus) = machine();
    cpu.regs[1] = (-3i64) as u64;
    cpu.regs[2] = 1 << 62;
    // mulh x3, x1, x2
    assert_eq!(run(&mut cpu, &mut bus, 0x0220_91b3), Ok(()));
    let expected = (((-3i128) * (1i128 << 62)) >> 64) as u64;
    assert_eq!(cpu.regs[3], expected);
    // mulhu x3, x1, x2
    assert_eq!(run(&mut cpu, &mut bus, 0x0220_b1b3), Ok(()));
    let expected = (((cpu.regs[1] as u128) * (cpu.regs[2] as u128)) >> 64) as u64;
    assert_eq!(cpu.regs[3], expected);
}

#[test]
fn division_by_zero_gives_all_ones_and_the_dividend() {
    let (mut cpu, mut bus) = machine();
    cpu.regs[1] = 10;
    cpu.regs[2] = 0;
    // div x3, x1, x2
    assert_eq!(run(&mut cpu, &mut bus, 0x0220_c1b3), Ok(()));
    assert_eq!(cpu.regs[3], u64::MAX);
    // divu x3, x1, x2
    assert_eq!(run(&mut cpu, &mut bus, 0x0220_d1b3), Ok(()));
    assert_eq!(cpu.regs[3], u64::MAX);
    // rem x3, x1, x2 and remu x3, x1, x2
    assert_eq!(run(&mut cpu, &mut bus, 0x0220_e1b3), Ok(()));
    assert_eq!(cpu.regs[3], 10);
    assert_eq!(run(&mut cpu, &mut bus, 0x0220_f1b3), Ok(()));
    assert_eq!(cpu.regs[3], 10);
    // divw x3, x1, x2 and remw x3, x1, x2
    assert_eq!(run(&mut cpu, &mut bus, 0x0220_c1bb), Ok(()));
    assert_eq!(cpu.regs[3], u64::MAX);
    assert_eq!(run(&mut cpu, &mut bus, 0x0220_e1bb), Ok(()));
    assert_eq!(cpu.regs[3], 10);
    assert!(cpu.halt.is_none());
}

#[test]
fn division_follows_operand_signedness() {
    let (mut cpu, mut bus) = machine();
    cpu.regs[1] = (-7i64) as u64;
    cpu.regs[2] = 2;
    // div x3, x1, x2 divides as signed numbers
    assert_eq!(run(&mut cpu, &mut bus, 0x0220_c1b3), Ok(()));
    assert_eq!(cpu.regs[3], (-3i64) as u64);
    // rem x3, x1, x2
    assert_eq!(run(&mut cpu, &mut bus, 0x0220_e1b3), Ok(()));
    assert_eq!(cpu.regs[3], (-1i64) as u64);
    // divu x3, x1, x2 divides as unsigned numbers
    assert_eq!(run(&mut cpu, &mut bus, 0x0220_d1b3), Ok(()));
    assert_eq!(cpu.regs[3], ((-7i64) as u64) / 2);
    // remu x3, x1, x2
    assert_eq!(run(&mut cpu, &mut bus, 0x0220_f1b3), Ok(()));
    assert_eq!(cpu.regs[3], 1);
    // the overflowing signed division gives the dividend, its remainder zero
    cpu.regs[1] = i64::MIN as u64;
    cpu.regs[2] = u64::MAX;
    assert_eq!(run(&mut cpu, &mut bus, 0x0220_c1b3), Ok(()));
    assert_eq!(cpu.regs[3], i64::MIN as u64);
    assert_eq!(run(&mut cpu, &mut bus, 0x0220_e1b3), Ok(()));
    assert_eq!(cpu.regs[3], 0);
    // and likewise on words
    cpu.regs[1] = i32::MIN as u32 as u64;
    assert_eq!(run(&mut cpu, &mut bus, 0x0220_c1bb), Ok(()));
    assert_eq!(cpu.regs[3], i32::MIN as i64 as u64);
    assert_eq!(run(&mut cpu, &mut bus, 0x0220_e1bb), Ok(()));
    assert_eq!(cpu.regs[3], 0);
    assert!(cpu.halt.is_none());
}

#[test]
fn word_operations_use_both_sources_and_sign_extend() {
    let (mut cpu, mut bus) = machine();
    cpu.regs[1] = 1000;
    cpu.regs[2] = 7;
    // mulw x3, x1, x2
    assert_eq!(run(&mut cpu, &mut bus, 0x0220_81bb), Ok(()));
    assert_eq!(cpu.regs[3], 7000);
    cpu.regs[1] = 0x1_0000;
    cpu.regs[2] = 0x1_8000;
    // the product's low word 0x8000_0000 is sign-extended
    assert_eq!(run(&mut cpu, &mut bus, 0x0220_81bb), Ok(()));
    assert_eq!(cpu.regs[3], 0xffff_ffff_8000_0000);
    cpu.regs[1] = (-20i64) as u64;
    cpu.regs[2] = 6;
    // divw x3, x1, x2
    assert_eq!(run(&mut cpu, &mut bus, 0x0220_c1bb), Ok(()));
    assert_eq!(cpu.regs[3], (-3i64) as u64);
    // remw x3, x1, x2
    assert_eq!(run(&mut cpu, &mut bus, 0x0220_e1bb), Ok(()));
    assert_eq!(cpu.regs[3], (-2i64) as u64);
    // divuw x3, x1, x2: 0xffff_ffec / 6 = 0x2aaa_aaa7
    assert_eq!(run(&mut cpu, &mut bus, 0x0220_d1bb), Ok(()));
    assert_eq!(cpu.regs[3], 0x2aaa_aaa7);
    // remuw x3, x1, x2
    assert_eq!(run(&mut cpu, &mut bus, 0x0220_f1bb), Ok(()));
    assert_eq!(cpu.regs[3], 0xffff_ffec % 6);
    // sllw x3, x2, x4 with x4 = 29: 6 << 29 = 0xc000_0000, sign-extended
    cpu.regs[4] = 29;
    assert_eq!(run(&mut cpu, &mut bus, 0x0041_11bb), Ok(()));
    assert_eq!(cpu.regs[3], 0xffff_ffff_c000_0000);
}

#[test]
fn shifts_use_six_bit_amounts() {
    let (mut cpu, mut bus) = machine();
    cpu.regs[1] = 1;
    cpu.regs[2] = 40;
    // sll x3, x1, x2
    assert_eq!(run(&mut cpu, &mut bus, 0x0020_91b3), Ok(()));
    assert_eq!(cpu.regs[3], 1 << 40);
    cpu.regs[1] = 0x8000_0000_0000_0000;
    // srl x3, x1, x2
    assert_eq!(run(&mut cpu, &mut bus, 0x0020_d1b3), Ok(()));
    assert_eq!(cpu.regs[3], 0x80_0000);
    // sra x3, x1, x2
    assert_eq!(run(&mut cpu, &mut bus, 0x4020_d1b3), Ok(()));
    assert_eq!(cpu.regs[3], 0xffff_ffff_ff80_0000);
    // srli x3, x1, 40 is logical, srai x3, x1, 40 arithmetic
    assert_eq!(run(&mut cpu, &mut bus, 0x0280_d193), Ok(()));
    assert_eq!(cpu.regs[3], 0x80_0000);
    assert_eq!(run(&mut cpu, &mut bus, 0x4280_d193), Ok(()));
    assert_eq!(cpu.regs[3], 0xffff_ffff_ff80_0000);
}

#[test]
fn immediate_logic_uses_the_whole_register() {
    let (mut cpu, mut bus) = machine();
    cpu.regs[1] = 0x1_0000_0000;
    // slti x3, x1, 1: 2^32 is not below 1
    assert_eq!(run(&mut cpu, &mut bus, 0x0010_a193), Ok(()));
    assert_eq!(cpu.regs[3], 0);
    // sltiu x3, x1, 1
    assert_eq!(run(&mut cpu, &mut bus, 0x0010_b193), Ok(()));
    assert_eq!(cpu.regs[3], 0);
    // xori x3, x1, 1
    assert_eq!(run(&mut cpu, &mut bus, 0x0010_c193), Ok(()));
    assert_eq!(cpu.regs[3], 0x1_0000_0001);
    // ori x3, x1, 1
    assert_eq!(run(&mut cpu, &mut bus, 0x0010_e193), Ok(()));
    assert_eq!(cpu.regs[3], 0x1_0000_0001);
    // andi x3, x1, -1
    assert_eq!(run(&mut cpu, &mut bus, 0xfff0_f193), Ok(()));
    assert_eq!(cpu.regs[3], 0x1_0000_0000);
}

#[test]
fn auipc_with_a_negative_offset_wraps() {
    let (mut cpu, mut bus) = machine();
    // auipc x3, 0xfffff: pc - 0x1000
    assert_eq!(run(&mut cpu, &mut bus, 0xffff_f197), Ok(()));
    assert_eq!(cpu.regs[3], cpu.pc.wrapping_sub(0x1000));
}

#[test]
fn immediate_instructions() {
    let (mut cpu, mut bus) = machine();
    cpu.regs[1] = 10;
    // addi x2, x1, -20
    assert_eq!(run(&mut cpu, &mut bus, 0xfec0_8113), Ok(()));
    assert_eq!(cpu.regs[2] as i64, -10);
    // slti x3, x2, 0
    assert_eq!(run(&mut cpu, &mut bus, 0x0001_2193), Ok(()));
    assert_eq!(cpu.regs[3], 1);
    // slli x4, x1, 4
    assert_eq!(run(&mut cpu, &mut bus, 0x0040_9213), Ok(()));
    assert_eq!(cpu.regs[4], 160);
    // addiw x5, x1, -11 : sign-extended 32-bit result
    assert_eq!(run(&mut cpu, &mut bus, 0xff50_829b), Ok(()));
    assert_eq!(cpu.regs[5], u64::MAX);
}

#[test]
fn loads_extend_and_stores_truncate() {
    let (mut cpu, mut bus) = machine();
    cpu.regs[1] = BASE + 0x100;
    cpu.regs[2] = 0xffff_ffff_ffff_ff80;
    // sb x2, 0(x1)
    assert_eq!(run(&mut cpu, &mut bus, 0x0020_8023), Ok(()));
    // lb x3, 0(x1)
    assert_eq!(run(&mut cpu, &mut bus, 0x0000_8183), Ok(()));
    assert_eq!(cpu.regs[3], 0xffff_ffff_ffff_ff80);
    // lbu x3, 0(x1)
    assert_eq!(run(&mut cpu, &mut bus, 0x0000_c183), Ok(()));
    assert_eq!(cpu.regs[3], 0x80);
    // a store marks the stored register as the destination
    assert_eq!(run(&mut cpu, &mut bus, 0x0020_8023), Ok(()));
    assert_eq!((cpu.dest, cpu.src1), (2, 1));
}

#[test]
fn load_beyond_memory_halts() {
    let (mut cpu, mut bus) = machine();
    cpu.regs[1] = BASE + DRAM_SIZE;
    // ld x3, 0(x1)
    assert_eq!(run(&mut cpu, &mut bus, 0x0000_b183), Err(Exception::LoadAccessFault));
    assert_eq!(cpu.halt, Some(Halt::OutOfBounds(BASE + DRAM_SIZE)));
}

#[test]
fn load_below_memory_is_an_access_fault() {
    let (mut cpu, mut bus) = machine();
    cpu.regs[1] = 0x100;
    assert_eq!(run(&mut cpu, &mut bus, 0x0000_b183), Err(Exception::LoadAccessFault));
    assert!(cpu.halt.is_none());
}

#[test]
fn jumps_leave_pc_one_instruction_before_target() {
    let (mut cpu, mut bus) = machine();
    cpu.pc = BASE + 0x40;
    // jal x1, -8
    assert_eq!(run(&mut cpu, &mut bus, 0xff9f_f0ef), Ok(()));
    assert_eq!(cpu.regs[1], BASE + 0x44);
    assert_eq!(cpu.pc, BASE + 0x40 - 8 - 4);
    // beq x0, x0, 16
    cpu.pc = BASE;
    assert_eq!(run(&mut cpu, &mut bus, 0x0000_0863), Ok(()));
    assert_eq!(cpu.pc, BASE + 12);
    // bne x0, x0, 16 is not taken
    cpu.pc = BASE;
    assert_eq!(run(&mut cpu, &mut bus, 0x0000_1863), Ok(()));
    assert_eq!(cpu.pc, BASE);
}

#[test]
fn csr_read_write_and_sstatus_view() {
    let (mut cpu, mut bus) = machine();
    cpu.regs[2] = 0xffff_ffff_ffff_ffff;
    // csrrw x1, mstatus, x2
    assert_eq!(run(&mut cpu, &mut bus, 0x3001_10f3), Ok(()));
    assert_eq!(cpu.regs[1], 0);
    assert_eq!(cpu.csr.load_csrs(MSTATUS, 0), u64::MAX);
    assert_eq!(cpu.csr.load_csrs(SSTATUS, 0), 0xffff_fff3_ff8d_e777);
    // the time counter ticks once every 20 retired instructions
    assert_eq!(cpu.csr.load_csrs(TIME, 1_000), 50);
    assert_eq!(cpu.csr.load_csrs(TIME, 19), 0);
}

#[test]
fn ecall_traps_to_machine_mode_and_mret_returns() {
    let (mut cpu, mut bus) = machine();
    cpu.csr.store_csrs(MTVEC, BASE + 0x200);
    cpu.csr.store_csrs(MSTATUS, MASK_MIE);
    cpu.mode = S_MODE;
    cpu.pc = BASE + 0x10;
    assert_eq!(run(&mut cpu, &mut bus, 0x0000_0073), Ok(()));
    assert_eq!(cpu.mode, M_MODE);
    assert_eq!(cpu.csr.load_csrs(MEPC, 0), BASE + 0x10);
    assert_eq!(cpu.csr.load_csrs(MCAUSE, 0), 9);
    assert_eq!(cpu.pc, BASE + 0x200 - 4);
    assert_eq!(cpu.csr.load_csrs(MSTATUS, 0) & MASK_MIE, 0);
    // mret
    assert_eq!(run(&mut cpu, &mut bus, 0x3020_0073), Ok(()));
    assert_eq!(cpu.mode, S_MODE);
    assert_eq!(cpu.pc, BASE + 0x10 - 4);
    assert_eq!(cpu.csr.load_csrs(MSTATUS, 0) & MASK_MIE, MASK_MIE);
}

#[test]
fn delegated_exception_goes_to_supervisor_and_sret_returns() {
    let (mut cpu, mut bus) = machine();
    cpu.csr.store_csrs(STVEC, BASE + 0x300);
    cpu.csr.store_csrs(MEDELEG, 1 << 8);
    cpu.mode = U_MODE;
    cpu.pc = BASE + 0x20;
    assert_eq!(run(&mut cpu, &mut bus, 0x0000_0073), Ok(()));
    assert_eq!(cpu.mode, S_MODE);
    assert_eq!(cpu.csr.load_csrs(SEPC, 0), BASE + 0x20);
    assert_eq!(cpu.pc, BASE + 0x300 - 4);
    assert_eq!(run(&mut cpu, &mut bus, 0x1020_0073), Ok(()));
    assert_eq!(cpu.mode, U_MODE);
    assert_eq!(cpu.pc, BASE + 0x20 - 4);
}

#[test]
fn mret_from_lower_mode_is_illegal() {
    let (mut cpu, mut bus) = machine();
    cpu.mode = S_MODE;
    assert_eq!(
        run(&mut cpu, &mut bus, 0x3020_0073),
        Err(Exception::IllegalInstruction(0x3020_0073))
    );
}

#[test]
fn bad_trap_vector_halts() {
    let (mut cpu, mut bus) = machine();
    cpu.csr.store_csrs(MTVEC, BASE + 2);
    assert_eq!(run(&mut cpu, &mut bus, 0x0000_0073), Ok(()));
    assert_eq!(cpu.halt, Some(Halt::BadTrapVector));
}

#[test]
fn ecall_from_unknown_mode_halts() {
    let (mut cpu, mut bus) = machine();
    cpu.mode = 2;
    assert_eq!(run(&mut cpu, &mut bus, 0x0000_0073), Err(Exception::IllegalInstruction(0)));
    assert_eq!(cpu.halt, Some(Halt::BadMode(2)));
}

#[test]
fn amoadd_returns_old_word_and_stores_sum() {
    let (mut cpu, mut bus) = machine();
    cpu.regs[1] = BASE + 0x80;
    cpu.regs[2] = 5;
    assert_eq!(bus.store(BASE + 0x80, 32, 37), Ok(()));
    // amoadd.w x3, x2, (x1)
    assert_eq!(run(&mut cpu, &mut bus, 0x0020_a1af), Ok(()));
    assert_eq!(cpu.regs[3], 37);
    assert_eq!(bus.load(BASE + 0x80, 32), Ok(42));
}

#[test]
fn atomic_operations_decode_by_funct5_and_width() {
    assert!(matches!(
        DecodedInstr::decode(0x0020_a1af),
        DecodedInstr::Amoadd { raw: 0x0020_a1af, rd: 3, rs1: 1, rs2: 2 }
    ));
    assert!(matches!(
        DecodedInstr::decode(0x0820_a1af),
        DecodedInstr::Amoswap { rd: 3, rs1: 1, rs2: 2, .. }
    ));
    assert!(matches!(DecodedInstr::decode(0x0020_b1af), DecodedInstr::Amoadd { .. }));
    assert!(matches!(DecodedInstr::decode(0xe020_a1af), DecodedInstr::Amomaxu { .. }));
    // funct3 0 is no atomic width
    assert!(matches!(DecodedInstr::decode(0x0020_81af), DecodedInstr::IllegalInstruction { .. }));
}

#[test]
fn atomic_word_and_doubleword_semantics() {
    let (mut cpu, mut bus) = machine();
    cpu.regs[1] = BASE + 0x80;
    assert_eq!(bus.store(BASE + 0x80, 64, 0x1_ffff_fffe), Ok(()));
    // amomin.w x3, x2, (x1) with x2 = 5: the word -2 is the smaller, rd gets it sign-extended
    cpu.regs[2] = 5;
    assert_eq!(run(&mut cpu, &mut bus, 0x8020_a1af), Ok(()));
    assert_eq!(cpu.regs[3], (-2i64) as u64);
    assert_eq!(bus.load(BASE + 0x80, 64), Ok(0x1_ffff_fffe));
    // amominu.w: 5 is the smaller unsigned word
    assert_eq!(run(&mut cpu, &mut bus, 0xc020_a1af), Ok(()));
    assert_eq!(bus.load(BASE + 0x80, 64), Ok(0x1_0000_0005));
    // amoadd.d x3, x2, (x1) works on the whole doubleword
    assert_eq!(run(&mut cpu, &mut bus, 0x0020_b1af), Ok(()));
    assert_eq!(cpu.regs[3], 0x1_0000_0005);
    assert_eq!(bus.load(BASE + 0x80, 64), Ok(0x1_0000_000a));
    // amoswap.d
    cpu.regs[2] = u64::MAX;
    assert_eq!(run(&mut cpu, &mut bus, 0x0820_b1af), Ok(()));
    assert_eq!(cpu.regs[3], 0x1_0000_000a);
    assert_eq!(bus.load(BASE + 0x80, 64), Ok(u64::MAX));
}

#[test]
fn illegal_instruction_reports_the_word() {
    let (mut cpu, mut bus) = machine();
    assert_eq!(
        run(&mut cpu, &mut bus, 0xffff_ffff),
        Err(Exception::IllegalInstruction(0xffff_ffff))
    );
}

#[test]
fn step_resets_x0_and_advances() {
    let mut cpu = Cpu::new(BASE, 0);
    // addi x0, x0, 5 ; addi x1, x0, 7
    let code = vec![0x13, 0x00, 0x50, 0x00, 0x93, 0x00, 0x70, 0x00];
    let mut bus = Bus::new(code, BASE);
    assert_eq!(cpu.step_run(&mut bus), BASE + 4);
    assert_eq!(cpu.regs[0], 0);
    assert_eq!(cpu.step_run(&mut bus), BASE + 8);
    assert_eq!(cpu.regs[1], 7);
    assert_eq!(cpu.cycle, 2);
}

#[test]
fn program_counter_reaching_zero_finishes() {
    let mut cpu = Cpu::new(BASE, 0);
    cpu.regs[1] = 0;
    // jalr x0, 0(x1)
    let code = vec![0x67, 0x80, 0x00, 0x00];
    let mut bus = Bus::new(code, BASE);
    assert_eq!(cpu.step_run(&mut bus), 0);
    assert_eq!(cpu.halt, Some(Halt::Finished));
}

#[test]
fn dump_counter_restarts_at_interval() {
    let mut cpu = Cpu::new(BASE, 2);
    let code = vec![0x13, 0, 0, 0, 0x13, 0, 0, 0, 0x13, 0, 0, 0];
    let mut bus = Bus::new(code, BASE);
    cpu.step_run(&mut bus);
    assert_eq!(cpu.dump_count, 1);
    cpu.step_run(&mut bus);
    assert_eq!(cpu.dump_count, 2);
    cpu.set_dump_count(0);
    cpu.step_run(&mut bus);
    assert_eq!(cpu.dump_count, 0);
}

#[test]
fn delegated_interrupt_from_user_mode_ignores_sie() {
    let mut cpu = Cpu::new(BASE, 0);
    let i = Interrupt::SupervisorSoftwareInterrupt;
    cpu.csr.store_csrs(MIDELEG, i.bit_code());
    cpu.csr.store_csrs(SIP, i.bit_code());
    cpu.csr.store_csrs(SIE, i.bit_code());
    cpu.csr.store_csrs(SSTATUS, 0);
    cpu.mode = U_MODE;
    assert_eq!(i.get_trap_mode(&cpu), Ok(S_MODE));
    // in supervisor mode the SIE bit decides
    cpu.mode = S_MODE;
    assert_eq!(i.get_trap_mode(&cpu), Err(()));
    cpu.mode = M_MODE;
    assert_eq!(i.get_trap_mode(&cpu), Err(()));
}

#[test]
fn csr_clear_and_swap_follow_the_isa() {
    let (mut cpu, mut bus) = machine();
    cpu.csr.store_csrs(0x340, 0xff);
    cpu.regs[1] = 0x0f;
    // csrrc x3, mscratch, x1 clears the bits of x1
    assert_eq!(run(&mut cpu, &mut bus, 0x3400_b1f3), Ok(()));
    assert_eq!(cpu.regs[3], 0xff);
    assert_eq!(cpu.csr.load_csrs(0x340, 0), 0xf0);
    // csrrw x1, mscratch, x1 writes the old x1 and reads the old CSR
    assert_eq!(run(&mut cpu, &mut bus, 0x3400_90f3), Ok(()));
    assert_eq!(cpu.regs[1], 0xf0);
    assert_eq!(cpu.csr.load_csrs(0x340, 0), 0x0f);
}
