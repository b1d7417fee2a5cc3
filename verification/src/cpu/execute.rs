use super::mmu::{cpu_load_spec, cpu_store_spec, lemma_access_frame};
use super::trap::{exception_trap, mret_spec, sret_spec};
use super::{Cpu, CpuState, Halt, M_MODE, REG_NUM, S_MODE, U_MODE};
use crate::bus::{Bus, BusState};
use crate::csr::csr_read;
use crate::csr::csr_write;
use crate::instruction::{instr_wf, BlockState, DecodedInstr};
use crate::interrupt::Exception;
use vstd::prelude::*;
use vstd::std_specs::ops::{DivSpec, RemSpec};

verus! {

broadcast use vstd::std_specs::hash::group_hash_axioms;

/// The hart with register `rd` set to `v`.
pub open spec fn set_reg(c: CpuState, rd: usize, v: u64) -> CpuState {
    CpuState { regs: c.regs.update(rd as int, v), ..c }
}

/// The hart with the given registers highlighted as written and read.
pub open spec fn marked(c: CpuState, d: usize, s1: usize, s2: usize) -> CpuState {
    CpuState { dest: d, src1: s1, src2: s2, ..c }
}

/// Signed 64-bit division: by zero it gives all ones, and the one overflowing quotient
/// (the most negative value divided by -1) gives the dividend.
pub open spec fn div_signed(a: u64, b: u64) -> u64 {
    if b as i64 == 0 {
        u64::MAX
    } else if a as i64 == i64::MIN && b as i64 == -1 {
        a
    } else {
        (a as i64).div_spec(b as i64) as u64
    }
}

/// Unsigned 64-bit division: by zero it gives all ones.
pub open spec fn div_unsigned(a: u64, b: u64) -> u64 {
    if b == 0 {
        u64::MAX
    } else {
        a / b
    }
}

/// Signed 64-bit remainder: by zero it gives the dividend, and on overflow zero.
pub open spec fn rem_signed(a: u64, b: u64) -> u64 {
    if b as i64 == 0 {
        a
    } else if a as i64 == i64::MIN && b as i64 == -1 {
        0
    } else {
        (a as i64).rem_spec(b as i64) as u64
    }
}

/// Unsigned 64-bit remainder: by zero it gives the dividend.
pub open spec fn rem_unsigned(a: u64, b: u64) -> u64 {
    if b == 0 {
        a
    } else {
        a % b
    }
}

/// Signed division of the low words, sign-extended (all ones by zero, the dividend on
/// overflow).
pub open spec fn divw_value(a: u64, b: u64) -> u64 {
    let x = a as i32;
    let y = b as i32;
    if y == 0 {
        u64::MAX
    } else if x == i32::MIN && y == -1 {
        x as i64 as u64
    } else {
        x.div_spec(y) as i64 as u64
    }
}

/// Unsigned division of the low words, sign-extended (all ones by zero).
pub open spec fn divuw_value(a: u64, b: u64) -> u64 {
    if b as u32 == 0 {
        u64::MAX
    } else {
        ((a as u32) / (b as u32)) as i32 as i64 as u64
    }
}

/// Signed remainder of the low words, sign-extended (the dividend by zero, zero on overflow).
pub open spec fn remw_value(a: u64, b: u64) -> u64 {
    let x = a as i32;
    let y = b as i32;
    if y == 0 {
        x as i64 as u64
    } else if x == i32::MIN && y == -1 {
        0
    } else {
        x.rem_spec(y) as i64 as u64
    }
}

/// Unsigned remainder of the low words, sign-extended (the dividend by zero).
pub open spec fn remuw_value(a: u64, b: u64) -> u64 {
    if b as u32 == 0 {
        a as u32 as i32 as i64 as u64
    } else {
        ((a as u32) % (b as u32)) as i32 as i64 as u64
    }
}

/// The value a register-register instruction writes, given the registers `r`.
pub open spec fn rr_value(inst: DecodedInstr, r: Seq<u64>) -> u64 {
    match inst {
        DecodedInstr::Add { rs1, rs2, .. } => r[rs1 as int].wrapping_add(r[rs2 as int]),
        DecodedInstr::Sub { rs1, rs2, .. } => r[rs1 as int].wrapping_sub(r[rs2 as int]),
        DecodedInstr::Sll { rs1, rs2, .. } => r[rs1 as int] << (r[rs2 as int] & 0x3f),
        DecodedInstr::Slt { rs1, rs2, .. } => if (r[rs1 as int] as i64) < (r[rs2 as int] as i64) {
            1
        } else {
            0
        },
        DecodedInstr::Sltu { rs1, rs2, .. } => if r[rs1 as int] < r[rs2 as int] {
            1
        } else {
            0
        },
        DecodedInstr::Xor { rs1, rs2, .. } => r[rs1 as int] ^ r[rs2 as int],
        DecodedInstr::Srl { rs1, rs2, .. } => r[rs1 as int] >> (r[rs2 as int] & 0x3f),
        DecodedInstr::Sra { rs1, rs2, .. } => ((r[rs1 as int] as i64) >> (r[rs2 as int] & 0x3f))
            as u64,
        DecodedInstr::Or { rs1, rs2, .. } => r[rs1 as int] | r[rs2 as int],
        DecodedInstr::And { rs1, rs2, .. } => r[rs1 as int] & r[rs2 as int],
        DecodedInstr::Mul { rs1, rs2, .. } => r[rs1 as int].wrapping_mul(r[rs2 as int]),
        DecodedInstr::Mulh { rs1, rs2, .. } => ((((r[rs1 as int] as i64) as int) * ((
        r[rs2 as int] as i64) as int)) as i128 >> 64u32) as u64,
        DecodedInstr::Mulhsu { rs1, rs2, .. } => ((((r[rs1 as int] as i64) as int) * (
        r[rs2 as int] as int)) as i128 >> 64u32) as u64,
        DecodedInstr::Mulhu { rs1, rs2, .. } => (((r[rs1 as int] as int) * (r[rs2 as int] as int))
            as u128 >> 64u32) as u64,
        DecodedInstr::Div { rs1, rs2, .. } => div_signed(r[rs1 as int], r[rs2 as int]),
        DecodedInstr::Divu { rs1, rs2, .. } => div_unsigned(r[rs1 as int], r[rs2 as int]),
        DecodedInstr::Rem { rs1, rs2, .. } => rem_signed(r[rs1 as int], r[rs2 as int]),
        DecodedInstr::Remu { rs1, rs2, .. } => rem_unsigned(r[rs1 as int], r[rs2 as int]),
        DecodedInstr::Addw { rs1, rs2, .. } => (r[rs1 as int] as i32).wrapping_add(
            r[rs2 as int] as i32,
        ) as i64 as u64,
        DecodedInstr::Subw { rs1, rs2, .. } => (r[rs1 as int] as i32).wrapping_sub(
            r[rs2 as int] as i32,
        ) as i64 as u64,
        DecodedInstr::Sllw { rs1, rs2, .. } => ((r[rs1 as int] as u32) << (r[rs2 as int] & 0x1f))
            as i32 as i64 as u64,
        DecodedInstr::Srlw { rs1, rs2, .. } => ((r[rs1 as int] as u32) >> (r[rs2 as int] & 0x1f))
            as i32 as i64 as u64,
        DecodedInstr::Sraw { rs1, rs2, .. } => ((r[rs1 as int] as i32) >> (r[rs2 as int] & 0x1f))
            as i64 as u64,
        DecodedInstr::Mulw { rs1, rs2, .. } => (r[rs1 as int] as u32).wrapping_mul(
            r[rs2 as int] as u32,
        ) as i32 as i64 as u64,
        DecodedInstr::Divw { rs1, rs2, .. } => divw_value(r[rs1 as int], r[rs2 as int]),
        DecodedInstr::Divuw { rs1, rs2, .. } => divuw_value(r[rs1 as int], r[rs2 as int]),
        DecodedInstr::Remw { rs1, rs2, .. } => remw_value(r[rs1 as int], r[rs2 as int]),
        DecodedInstr::Remuw { rs1, rs2, .. } => remuw_value(r[rs1 as int], r[rs2 as int]),
        _ => 0,
    }
}

/// Register-register instructions.
pub open spec fn is_rr(inst: DecodedInstr) -> bool {
    ||| inst is Add
    ||| inst is Sub
    ||| inst is Sll
    ||| inst is Slt
    ||| inst is Sltu
    ||| inst is Xor
    ||| inst is Srl
    ||| inst is Sra
    ||| inst is Or
    ||| inst is And
    ||| inst is Mul
    ||| inst is Mulh
    ||| inst is Mulhsu
    ||| inst is Mulhu
    ||| inst is Div
    ||| inst is Divu
    ||| inst is Rem
    ||| inst is Remu
    ||| inst is Addw
    ||| inst is Subw
    ||| inst is Sllw
    ||| inst is Srlw
    ||| inst is Sraw
    ||| inst is Mulw
    ||| inst is Divw
    ||| inst is Divuw
    ||| inst is Remw
    ||| inst is Remuw
}

/// The value a register-immediate instruction writes, given the registers `r`.
pub open spec fn ri_value(inst: DecodedInstr, r: Seq<u64>) -> u64 {
    match inst {
        DecodedInstr::Addi { rs1, imm, .. } => r[rs1 as int].wrapping_add(imm),
        DecodedInstr::Slti { rs1, imm, .. } => if (r[rs1 as int] as i64) < (imm as i64) {
            1
        } else {
            0
        },
        DecodedInstr::Sltiu { rs1, imm, .. } => if r[rs1 as int] < imm {
            1
        } else {
            0
        },
        DecodedInstr::Xori { rs1, imm, .. } => r[rs1 as int] ^ imm,
        DecodedInstr::Ori { rs1, imm, .. } => r[rs1 as int] | imm,
        DecodedInstr::Andi { rs1, imm, .. } => r[rs1 as int] & imm,
        DecodedInstr::Slli { rs1, imm, .. } => r[rs1 as int] << (imm & 0x3f),
        DecodedInstr::Srli { rs1, imm, .. } => if (imm >> 10u64) & 1 == 0 {
            r[rs1 as int] >> (imm & 0x3f)
        } else {
            ((r[rs1 as int] as i64) >> (imm & 0x3f)) as u64
        },
        DecodedInstr::Addiw { rs1, imm, .. } => (r[rs1 as int] as i32).wrapping_add(imm) as i64
            as u64,
        DecodedInstr::Slliw { rs1, shamt, .. } => ((r[rs1 as int] as u32) << shamt) as i32 as i64
            as u64,
        DecodedInstr::Srliw { rs1, shamt, .. } => ((r[rs1 as int] as u32) >> shamt) as i32 as i64
            as u64,
        DecodedInstr::Sraiw { rs1, shamt, .. } => ((r[rs1 as int] as i32) >> shamt) as i64 as u64,
        _ => 0,
    }
}

/// Register-immediate instructions.
pub open spec fn is_ri(inst: DecodedInstr) -> bool {
    ||| inst is Addi
    ||| inst is Slti
    ||| inst is Sltiu
    ||| inst is Xori
    ||| inst is Ori
    ||| inst is Andi
    ||| inst is Slli
    ||| inst is Srli
    ||| inst is Addiw
    ||| inst is Slliw
    ||| inst is Srliw
    ||| inst is Sraiw
}

/// Whether a conditional branch is taken, given the registers `r`.
pub open spec fn branch_taken(inst: DecodedInstr, r: Seq<u64>) -> bool {
    match inst {
        DecodedInstr::Beq { rs1, rs2, .. } => r[rs1 as int] == r[rs2 as int],
        DecodedInstr::Bne { rs1, rs2, .. } => r[rs1 as int] != r[rs2 as int],
        DecodedInstr::Blt { rs1, rs2, .. } => (r[rs1 as int] as i64) < (r[rs2 as int] as i64),
        DecodedInstr::Bge { rs1, rs2, .. } => (r[rs1 as int] as i64) >= (r[rs2 as int] as i64),
        DecodedInstr::Bltu { rs1, rs2, .. } => r[rs1 as int] < r[rs2 as int],
        DecodedInstr::Bgeu { rs1, rs2, .. } => r[rs1 as int] >= r[rs2 as int],
        _ => false,
    }
}

/// The condition under which the instruction cannot be carried out (an environment call from
/// a mode that does not exist), and the hart then halts.
pub open spec fn execution_fault(c: CpuState, inst: DecodedInstr) -> Option<Halt> {
    let r = c.regs;
    match inst {
        DecodedInstr::Ecall { .. } => if c.mode != M_MODE && c.mode != S_MODE && c.mode
            != U_MODE {
            Some(Halt::BadMode(c.mode))
        } else {
            None
        },
        _ => None,
    }
}

/// The environment-call exception raised from privilege `mode`.
pub open spec fn ecall_exception(mode: u64) -> Exception {
    if mode == M_MODE {
        Exception::EnvironmentalCallFromMMode
    } else if mode == S_MODE {
        Exception::EnvironmentalCallFromSMode
    } else {
        Exception::EnvironmentalCallFromUMode
    }
}

/// The load width and the extension of the loaded value for a load instruction.
pub open spec fn load_width(inst: DecodedInstr) -> u64 {
    match inst {
        DecodedInstr::Lb { .. } | DecodedInstr::Lbu { .. } => 8,
        DecodedInstr::Lh { .. } | DecodedInstr::Lhu { .. } => 16,
        DecodedInstr::Lw { .. } | DecodedInstr::Lwu { .. } => 32,
        _ => 64,
    }
}

/// The register value a load instruction writes for the loaded value `v`.
pub open spec fn load_extend(inst: DecodedInstr, v: u64) -> u64 {
    match inst {
        DecodedInstr::Lb { .. } => v as i8 as i64 as u64,
        DecodedInstr::Lh { .. } => v as i16 as i64 as u64,
        DecodedInstr::Lw { .. } => v as i32 as i64 as u64,
        _ => v,
    }
}

/// The store width of a store instruction.
pub open spec fn store_width(inst: DecodedInstr) -> u64 {
    match inst {
        DecodedInstr::Sb { .. } => 8,
        DecodedInstr::Sh { .. } => 16,
        DecodedInstr::Sw { .. } => 32,
        _ => 64,
    }
}

/// Whether the atomic memory operation `inst` works on doublewords (`funct3` 3) rather than
/// words.
pub open spec fn amo_is_double(inst: DecodedInstr) -> bool {
    match inst {
        DecodedInstr::Amoswap { raw, .. } | DecodedInstr::Amoadd { raw, .. }
        | DecodedInstr::Amoxor { raw, .. } | DecodedInstr::Amoand { raw, .. }
        | DecodedInstr::Amoor { raw, .. } | DecodedInstr::Amomin { raw, .. }
        | DecodedInstr::Amomax { raw, .. } | DecodedInstr::Amominu { raw, .. }
        | DecodedInstr::Amomaxu { raw, .. } => (raw >> 12u32) & 7u32 == 3u32,
        _ => false,
    }
}

/// The width in bits of the memory operand of the atomic memory operation `inst`.
pub open spec fn amo_width(inst: DecodedInstr) -> u64 {
    if amo_is_double(inst) {
        64
    } else {
        32
    }
}

/// What the atomic memory operation `inst` writes to `rd` and stores, given the loaded
/// operand `val` (zero-extended) and the value `src` of `rs2`. A word operation gives `rd`
/// the sign-extended word and compares words, signed or unsigned; the store keeps the low
/// word of what it is given.
#[verifier::opaque]
pub open spec fn amo_values(inst: DecodedInstr, val: u64, src: u64) -> (u64, u64) {
    if amo_is_double(inst) {
        match inst {
            DecodedInstr::Amoswap { .. } => (val, src),
            DecodedInstr::Amoadd { .. } => (val, val.wrapping_add(src)),
            DecodedInstr::Amoxor { .. } => (val, val ^ src),
            DecodedInstr::Amoand { .. } => (val, val & src),
            DecodedInstr::Amoor { .. } => (val, val | src),
            DecodedInstr::Amomin { .. } => (val, if (val as i64) <= (src as i64) { val } else { src }),
            DecodedInstr::Amomax { .. } => (val, if (val as i64) <= (src as i64) { src } else { val }),
            DecodedInstr::Amominu { .. } => (val, if val <= src { val } else { src }),
            _ => (val, if val <= src { src } else { val }),
        }
    } else {
        let l = val as u32 as i32 as i64 as u64;
        match inst {
            DecodedInstr::Amoswap { .. } => (l, src),
            DecodedInstr::Amoadd { .. } => (l, val.wrapping_add(src)),
            DecodedInstr::Amoxor { .. } => (l, val ^ src),
            DecodedInstr::Amoand { .. } => (l, val & src),
            DecodedInstr::Amoor { .. } => (l, val | src),
            DecodedInstr::Amomin { .. } => (l, if (val as u32 as i32) <= (src as u32 as i32) { val } else { src }),
            DecodedInstr::Amomax { .. } => (l, if (val as u32 as i32) <= (src as u32 as i32) { src } else { val }),
            DecodedInstr::Amominu { .. } => (l, if (val as u32) <= (src as u32) { val } else { src }),
            _ => (l, if (val as u32) <= (src as u32) { src } else { val }),
        }
    }
}

/// What executing `inst` on the hart `c` and bus `b` returns, and the hart and bus after it.
/// The program counter is left at the instruction (jumps and taken branches leave it one
/// instruction before the target), as the step loop adds 4 afterwards.
pub open spec fn exec_spec(c: CpuState, b: BusState, inst: DecodedInstr) -> (
    Result<(), Exception>,
    CpuState,
    BusState,
) {
    let c0 = CpuState { dest: REG_NUM, src1: REG_NUM, src2: REG_NUM, ..c };
    match execution_fault(c0, inst) {
        Some(h) => (Err(Exception::IllegalInstruction(0)), CpuState { halt: Some(h), ..c0 }, b),
        None => exec_ok_spec(c0, b, inst),
    }
}

/// What executing `inst` returns, and the hart and bus after it, on a hart whose register
/// highlights are clear and on which the instruction can be carried out.
#[verifier::opaque]
pub open spec fn exec_ok_spec(c0: CpuState, b: BusState, inst: DecodedInstr) -> (
    Result<(), Exception>,
    CpuState,
    BusState,
) {
    let r = c0.regs;
    match inst {
            DecodedInstr::Add { rd, rs1, rs2, .. } | DecodedInstr::Sub { rd, rs1, rs2, .. }
            | DecodedInstr::Sll { rd, rs1, rs2, .. } | DecodedInstr::Slt { rd, rs1, rs2, .. }
            | DecodedInstr::Sltu { rd, rs1, rs2, .. } | DecodedInstr::Xor { rd, rs1, rs2, .. }
            | DecodedInstr::Srl { rd, rs1, rs2, .. } | DecodedInstr::Sra { rd, rs1, rs2, .. }
            | DecodedInstr::Or { rd, rs1, rs2, .. } | DecodedInstr::And { rd, rs1, rs2, .. }
            | DecodedInstr::Mul { rd, rs1, rs2, .. } | DecodedInstr::Mulh { rd, rs1, rs2, .. }
            | DecodedInstr::Mulhsu { rd, rs1, rs2, .. } | DecodedInstr::Mulhu { rd, rs1, rs2, .. }
            | DecodedInstr::Div { rd, rs1, rs2, .. } | DecodedInstr::Divu { rd, rs1, rs2, .. }
            | DecodedInstr::Rem { rd, rs1, rs2, .. } | DecodedInstr::Remu { rd, rs1, rs2, .. }
            | DecodedInstr::Addw { rd, rs1, rs2, .. } | DecodedInstr::Subw { rd, rs1, rs2, .. }
            | DecodedInstr::Sllw { rd, rs1, rs2, .. } | DecodedInstr::Srlw { rd, rs1, rs2, .. }
            | DecodedInstr::Sraw { rd, rs1, rs2, .. } | DecodedInstr::Mulw { rd, rs1, rs2, .. }
            | DecodedInstr::Divw { rd, rs1, rs2, .. } | DecodedInstr::Divuw { rd, rs1, rs2, .. }
            | DecodedInstr::Remw { rd, rs1, rs2, .. } | DecodedInstr::Remuw { rd, rs1, rs2, .. } => (
                Ok(()),
                marked(set_reg(c0, rd, rr_value(inst, r)), rd, rs1, rs2),
                b,
            ),
            DecodedInstr::Addi { rd, rs1, .. } | DecodedInstr::Slti { rd, rs1, .. }
            | DecodedInstr::Sltiu { rd, rs1, .. } | DecodedInstr::Xori { rd, rs1, .. }
            | DecodedInstr::Ori { rd, rs1, .. } | DecodedInstr::Andi { rd, rs1, .. }
            | DecodedInstr::Slli { rd, rs1, .. } | DecodedInstr::Srli { rd, rs1, .. }
            | DecodedInstr::Addiw { rd, rs1, .. } | DecodedInstr::Slliw { rd, rs1, .. }
            | DecodedInstr::Srliw { rd, rs1, .. } | DecodedInstr::Sraiw { rd, rs1, .. } => (
                Ok(()),
                marked(set_reg(c0, rd, ri_value(inst, r)), rd, rs1, REG_NUM),
                b,
            ),
            DecodedInstr::Lb { rd, rs1, imm, .. } | DecodedInstr::Lh { rd, rs1, imm, .. }
            | DecodedInstr::Lw { rd, rs1, imm, .. } | DecodedInstr::Ld { rd, rs1, imm, .. }
            | DecodedInstr::Lbu { rd, rs1, imm, .. } | DecodedInstr::Lhu { rd, rs1, imm, .. }
            | DecodedInstr::Lwu { rd, rs1, imm, .. } => {
                let addr = r[rs1 as int].wrapping_add(imm);
                let (lr, c1, b1) = cpu_load_spec(c0, b, addr, load_width(inst));
                match lr {
                    Err(e) => (Err(e), c1, b1),
                    Ok(v) => (
                        Ok(()),
                        marked(set_reg(c1, rd, load_extend(inst, v)), rd, rs1, REG_NUM),
                        b1,
                    ),
                }
            },
            DecodedInstr::Sb { rs1, rs2, imm, .. } | DecodedInstr::Sh { rs1, rs2, imm, .. }
            | DecodedInstr::Sw { rs1, rs2, imm, .. } | DecodedInstr::Sd { rs1, rs2, imm, .. } => {
                let addr = r[rs1 as int].wrapping_add(imm as i32 as i64 as u64);
                let (sr, c1, b1) = cpu_store_spec(c0, b, addr, store_width(inst), r[rs2 as int]);
                match sr {
                    Err(e) => (Err(e), c1, b1),
                    Ok(_) => (Ok(()), marked(c1, rs2, rs1, REG_NUM), b1),
                }
            },
            DecodedInstr::Jal { rd, imm, .. } => (
                Ok(()),
                marked(
                    CpuState {
                        pc: c0.pc.wrapping_add(imm).wrapping_sub(4),
                        ..set_reg(c0, rd, c0.pc.wrapping_add(4))
                    },
                    rd,
                    REG_NUM,
                    REG_NUM,
                ),
                b,
            ),
            DecodedInstr::Jalr { rd, rs1, imm, .. } => (
                Ok(()),
                marked(
                    CpuState {
                        pc: r[rs1 as int].wrapping_add(imm).wrapping_sub(4),
                        ..set_reg(c0, rd, c0.pc.wrapping_add(4))
                    },
                    rd,
                    rs1,
                    REG_NUM,
                ),
                b,
            ),
            DecodedInstr::Beq { rs1, rs2, imm, .. } | DecodedInstr::Bne { rs1, rs2, imm, .. }
            | DecodedInstr::Blt { rs1, rs2, imm, .. } | DecodedInstr::Bge { rs1, rs2, imm, .. }
            | DecodedInstr::Bltu { rs1, rs2, imm, .. } | DecodedInstr::Bgeu {
                rs1,
                rs2,
                imm,
                ..
            } => (
                Ok(()),
                marked(
                    if branch_taken(inst, r) {
                        CpuState { pc: c0.pc.wrapping_add(imm).wrapping_sub(4), ..c0 }
                    } else {
                        c0
                    },
                    REG_NUM,
                    rs1,
                    rs2,
                ),
                b,
            ),
            DecodedInstr::Lui { rd, imm, .. } => (
                Ok(()),
                marked(set_reg(c0, rd, imm), rd, REG_NUM, REG_NUM),
                b,
            ),
            DecodedInstr::Auipc { rd, imm, .. } => (
                Ok(()),
                marked(set_reg(c0, rd, c0.pc.wrapping_add(imm)), rd, REG_NUM, REG_NUM),
                b,
            ),
            DecodedInstr::Ecall { .. } => (Ok(()), exception_trap(c0, ecall_exception(c0.mode)), b),
            DecodedInstr::Ebreak { .. } | DecodedInstr::Wfi { .. } => (Ok(()), c0, b),
            DecodedInstr::Sret { raw } => if c0.mode < S_MODE {
                (Err(Exception::IllegalInstruction(raw)), c0, b)
            } else {
                (Ok(()), sret_spec(c0), b)
            },
            DecodedInstr::Mret { raw } => if c0.mode < M_MODE {
                (Err(Exception::IllegalInstruction(raw)), c0, b)
            } else {
                (Ok(()), mret_spec(c0), b)
            },
            DecodedInstr::Csrrw { rd, rs1, csr, .. } => {
                let c1 = if rd != 0 {
                    set_reg(c0, rd, csr_read(c0.csr, csr as int, c0.cycle))
                } else {
                    c0
                };
                (
                    Ok(()),
                    marked(
                        CpuState { csr: csr_write(c1.csr, csr as int, c0.regs[rs1 as int]), ..c1 },
                        rd,
                        rs1,
                        REG_NUM,
                    ),
                    b,
                )
            },
            DecodedInstr::Csrrs { rd, rs1, csr, .. } | DecodedInstr::Csrrc { rd, rs1, csr, .. } => {
                let old = csr_read(c0.csr, csr as int, c0.cycle);
                let c1 = set_reg(c0, rd, old);
                let nv = if inst is Csrrs {
                    c0.regs[rs1 as int] | old
                } else {
                    old & !c0.regs[rs1 as int]
                };
                let c2 = if rs1 != 0 {
                    CpuState { csr: csr_write(c1.csr, csr as int, nv), ..c1 }
                } else {
                    c1
                };
                (Ok(()), marked(c2, rd, rs1, REG_NUM), b)
            },
            DecodedInstr::Csrrwi { rd, rs1, csr, uimm, .. } => {
                let c1 = if rd != 0 {
                    set_reg(c0, rd, csr_read(c0.csr, csr as int, c0.cycle))
                } else {
                    c0
                };
                (
                    Ok(()),
                    marked(
                        CpuState { csr: csr_write(c1.csr, csr as int, uimm as u64), ..c1 },
                        rd,
                        rs1,
                        REG_NUM,
                    ),
                    b,
                )
            },
            DecodedInstr::Csrrsi { rd, rs1, csr, uimm, .. } | DecodedInstr::Csrrci {
                rd,
                rs1,
                csr,
                uimm,
                ..
            } => {
                let old = csr_read(c0.csr, csr as int, c0.cycle);
                let c1 = set_reg(c0, rd, old);
                let nv = if inst is Csrrsi {
                    uimm as u64 | old
                } else {
                    old & !(uimm as u64)
                };
                let c2 = if rs1 != 0 {
                    CpuState { csr: csr_write(c1.csr, csr as int, nv), ..c1 }
                } else {
                    c1
                };
                (Ok(()), marked(c2, rd, rs1, REG_NUM), b)
            },
            DecodedInstr::Sfence { .. } | DecodedInstr::Fence { .. } => (
                Ok(()),
                CpuState { tlb: Map::empty(), blocks: Map::empty(), ..c0 },
                b,
            ),
            DecodedInstr::Amoswap { rd, rs1, rs2, .. } | DecodedInstr::Amoadd { rd, rs1, rs2, .. }
            | DecodedInstr::Amoxor { rd, rs1, rs2, .. } | DecodedInstr::Amoand { rd, rs1, rs2, .. }
            | DecodedInstr::Amoor { rd, rs1, rs2, .. } | DecodedInstr::Amomin { rd, rs1, rs2, .. }
            | DecodedInstr::Amomax { rd, rs1, rs2, .. } | DecodedInstr::Amominu { rd, rs1, rs2, .. }
            | DecodedInstr::Amomaxu { rd, rs1, rs2, .. } => amo_spec(c0, b, inst, rd, rs1, rs2),
            DecodedInstr::IllegalInstruction { inst: w } => (
                Err(Exception::IllegalInstruction(w)),
                c0,
                b,
            ),
    }
}

/// An atomic memory operation on the 32-bit word at the address in `rs1`: the word is
/// loaded, `rd` receives it (sign-extended except for swap, add and the bitwise operations),
/// and the combined value is stored back.
pub open spec fn amo_spec(c0: CpuState, b: BusState, inst: DecodedInstr, rd: usize, rs1: usize, rs2: usize) -> (
    Result<(), Exception>,
    CpuState,
    BusState,
) {
    let addr = c0.regs[rs1 as int];
    let w = amo_width(inst);
    let (lr, c1, b1) = cpu_load_spec(c0, b, addr, w);
    match lr {
        Err(e) => (Err(e), c1, b1),
        Ok(val) => {
            let (to_rd, to_mem) = amo_values(inst, val, c1.regs[rs2 as int]);
            let c2 = set_reg(c1, rd, to_rd);
            let (sr, c3, b2) = cpu_store_spec(c2, b1, addr, w, to_mem);
            match sr {
                Err(e) => (Err(e), c3, b2),
                Ok(_) => (Ok(()), marked(c3, rd, rs1, rs2), b2),
            }
        },
    }
}

proof fn lemma_amo_frame(c0: CpuState, b: BusState, inst: DecodedInstr, rd: usize, rs1: usize, rs2: usize)
    ensures
        amo_spec(c0, b, inst, rd, rs1, rs2).1.blocks == c0.blocks,
        amo_spec(c0, b, inst, rd, rs1, rs2).1.cycle == c0.cycle,
{
    let addr = c0.regs[rs1 as int];
    let w = amo_width(inst);
    let (lr, c1, b1) = cpu_load_spec(c0, b, addr, w);
    lemma_access_frame(c0, b, addr, w, 0);
    if let Ok(val) = lr {
        let (to_rd, to_mem) = amo_values(inst, val, c1.regs[rs2 as int]);
        lemma_access_frame(set_reg(c1, rd, to_rd), b1, addr, w, to_mem);
    }
}

/// Executing an instruction leaves the cycle counter and the cache of decoded blocks alone,
/// except that fences empty the cache.
pub proof fn lemma_exec_blocks(c: CpuState, b: BusState, inst: DecodedInstr)
    ensures
        exec_spec(c, b, inst).1.blocks == c.blocks || exec_spec(c, b, inst).1.blocks == Map::<
            u64,
            BlockState,
        >::empty(),
        exec_spec(c, b, inst).1.cycle == c.cycle,
{
    reveal(exec_ok_spec);
    let c0 = CpuState { dest: REG_NUM, src1: REG_NUM, src2: REG_NUM, ..c };
    let r = c0.regs;
    match inst {
        DecodedInstr::Lb { rs1, imm, .. } | DecodedInstr::Lh { rs1, imm, .. }
        | DecodedInstr::Lw { rs1, imm, .. } | DecodedInstr::Ld { rs1, imm, .. }
        | DecodedInstr::Lbu { rs1, imm, .. } | DecodedInstr::Lhu { rs1, imm, .. }
        | DecodedInstr::Lwu { rs1, imm, .. } => {
            lemma_access_frame(c0, b, r[rs1 as int].wrapping_add(imm), load_width(inst), 0);
        },
        DecodedInstr::Sb { rs1, rs2, imm, .. } | DecodedInstr::Sh { rs1, rs2, imm, .. }
        | DecodedInstr::Sw { rs1, rs2, imm, .. } | DecodedInstr::Sd { rs1, rs2, imm, .. } => {
            lemma_access_frame(
                c0,
                b,
                r[rs1 as int].wrapping_add(imm as i32 as i64 as u64),
                store_width(inst),
                r[rs2 as int],
            );
        },
        DecodedInstr::Amoswap { rd, rs1, rs2, .. } | DecodedInstr::Amoadd { rd, rs1, rs2, .. }
        | DecodedInstr::Amoxor { rd, rs1, rs2, .. } | DecodedInstr::Amoand { rd, rs1, rs2, .. }
        | DecodedInstr::Amoor { rd, rs1, rs2, .. } | DecodedInstr::Amomin { rd, rs1, rs2, .. }
        | DecodedInstr::Amomax { rd, rs1, rs2, .. } | DecodedInstr::Amominu { rd, rs1, rs2, .. }
        | DecodedInstr::Amomaxu { rd, rs1, rs2, .. } => {
            lemma_amo_frame(c0, b, inst, rd, rs1, rs2);
        },
        _ => {},
    }
}

proof fn lemma_shift_masks(x: u64)
    ensures
        x & 0x1f < 32,
        x & 0x3f < 64,
{
    assert(x & 0x1f < 32) by (bit_vector);
    assert(x & 0x3f < 64) by (bit_vector);
}

proof fn lemma_product_bounds(a: u64, b: u64)
    ensures
        -0x4000_0000_0000_0000_0000_0000_0000_0000 <= ((a as i64) as int) * ((b as i64) as int)
            <= 0x4000_0000_0000_0000_0000_0000_0000_0000,
        -0x7fff_ffff_ffff_ffff_8000_0000_0000_0000 <= ((a as i64) as int) * (b as int)
            <= 0x7fff_ffff_ffff_ffff_0000_0000_0000_0000,
        0 <= (a as int) * (b as int) <= 0xffff_ffff_ffff_fffe_0000_0000_0000_0001,
{
    let x = (a as i64) as int;
    let y = (b as i64) as int;
    let z = b as int;
    let w = a as int;
    assert(-0x4000_0000_0000_0000_0000_0000_0000_0000 <= x * y
        <= 0x4000_0000_0000_0000_0000_0000_0000_0000) by (nonlinear_arith)
        requires
            -0x8000_0000_0000_0000 <= x < 0x8000_0000_0000_0000,
            -0x8000_0000_0000_0000 <= y < 0x8000_0000_0000_0000,
    ;
    assert(-0x7fff_ffff_ffff_ffff_8000_0000_0000_0000 <= x * z
        <= 0x7fff_ffff_ffff_ffff_0000_0000_0000_0000) by (nonlinear_arith)
        requires
            -0x8000_0000_0000_0000 <= x < 0x8000_0000_0000_0000,
            0 <= z <= 0xffff_ffff_ffff_ffff,
    ;
    assert(0 <= w * z <= 0xffff_ffff_ffff_fffe_0000_0000_0000_0001) by (nonlinear_arith)
        requires
            0 <= w <= 0xffff_ffff_ffff_ffff,
            0 <= z <= 0xffff_ffff_ffff_ffff,
    ;
}

fn exec_div_signed(a: u64, b: u64) -> (r: u64)
    ensures
        r == div_signed(a, b),
{
    if b as i64 == 0 {
        u64::MAX
    } else if a as i64 == i64::MIN && b as i64 == -1 {
        a
    } else {
        ((a as i64) / (b as i64)) as u64
    }
}

fn exec_div_unsigned(a: u64, b: u64) -> (r: u64)
    ensures
        r == div_unsigned(a, b),
{
    if b == 0 {
        u64::MAX
    } else {
        a / b
    }
}

fn exec_rem_signed(a: u64, b: u64) -> (r: u64)
    ensures
        r == rem_signed(a, b),
{
    if b as i64 == 0 {
        a
    } else if a as i64 == i64::MIN && b as i64 == -1 {
        0
    } else {
        ((a as i64) % (b as i64)) as u64
    }
}

fn exec_rem_unsigned(a: u64, b: u64) -> (r: u64)
    ensures
        r == rem_unsigned(a, b),
{
    if b == 0 {
        a
    } else {
        a % b
    }
}

fn exec_divw(a: u64, b: u64) -> (r: u64)
    ensures
        r == divw_value(a, b),
{
    let x = a as i32;
    let y = b as i32;
    if y == 0 {
        u64::MAX
    } else if x == i32::MIN && y == -1 {
        x as i64 as u64
    } else {
        (x / y) as i64 as u64
    }
}

fn exec_divuw(a: u64, b: u64) -> (r: u64)
    ensures
        r == divuw_value(a, b),
{
    if b as u32 == 0 {
        u64::MAX
    } else {
        ((a as u32) / (b as u32)) as i32 as i64 as u64
    }
}

fn exec_remw(a: u64, b: u64) -> (r: u64)
    ensures
        r == remw_value(a, b),
{
    let x = a as i32;
    let y = b as i32;
    if y == 0 {
        x as i64 as u64
    } else if x == i32::MIN && y == -1 {
        0
    } else {
        (x % y) as i64 as u64
    }
}

fn exec_remuw(a: u64, b: u64) -> (r: u64)
    ensures
        r == remuw_value(a, b),
{
    if b as u32 == 0 {
        a as u32 as i32 as i64 as u64
    } else {
        ((a as u32) % (b as u32)) as i32 as i64 as u64
    }
}

impl Cpu {
    /// The reason `inst` cannot be carried out on this hart, if any.
    pub fn execution_fault(&self, inst: &DecodedInstr) -> (h: Option<Halt>)
        requires
            self@.wf(),
            instr_wf(*inst),
        ensures
            h == execution_fault(self@, *inst),
    {
        match *inst {
            DecodedInstr::Ecall { .. } => {
                if self.mode != M_MODE && self.mode != S_MODE && self.mode != U_MODE {
                    Some(Halt::BadMode(self.mode))
                } else {
                    None
                }
            },
            _ => None,
        }
    }

    fn rr_compute(&self, inst: &DecodedInstr) -> (v: u64)
        requires
            self@.wf(),
            instr_wf(*inst),
            is_rr(*inst),
            execution_fault(self@, *inst) is None,
        ensures
            v == rr_value(*inst, self@.regs),
    {
        match *inst {
            DecodedInstr::Add { rs1, rs2, .. } => self.regs[rs1].wrapping_add(self.regs[rs2]),
            DecodedInstr::Sub { rs1, rs2, .. } => self.regs[rs1].wrapping_sub(self.regs[rs2]),
            DecodedInstr::Sll { rs1, rs2, .. } => {
                let shamt = self.regs[rs2] & 0x3f;
                proof {
                    lemma_shift_masks(self.regs[rs2 as int]);
                }
                self.regs[rs1] << shamt
            },
            DecodedInstr::Slt { rs1, rs2, .. } => {
                if (self.regs[rs1] as i64) < (self.regs[rs2] as i64) {
                    1
                } else {
                    0
                }
            },
            DecodedInstr::Sltu { rs1, rs2, .. } => {
                if self.regs[rs1] < self.regs[rs2] {
                    1
                } else {
                    0
                }
            },
            DecodedInstr::Xor { rs1, rs2, .. } => self.regs[rs1] ^ self.regs[rs2],
            DecodedInstr::Srl { rs1, rs2, .. } => {
                let shamt = self.regs[rs2] & 0x3f;
                proof {
                    lemma_shift_masks(self.regs[rs2 as int]);
                }
                self.regs[rs1] >> shamt
            },
            DecodedInstr::Sra { rs1, rs2, .. } => {
                let shamt = self.regs[rs2] & 0x3f;
                proof {
                    lemma_shift_masks(self.regs[rs2 as int]);
                }
                ((self.regs[rs1] as i64) >> shamt) as u64
            },
            DecodedInstr::Or { rs1, rs2, .. } => self.regs[rs1] | self.regs[rs2],
            DecodedInstr::And { rs1, rs2, .. } => self.regs[rs1] & self.regs[rs2],
            DecodedInstr::Mul { rs1, rs2, .. } => self.regs[rs1].wrapping_mul(self.regs[rs2]),
            DecodedInstr::Mulh { rs1, rs2, .. } => {
                proof {
                    lemma_product_bounds(self.regs[rs1 as int], self.regs[rs2 as int]);
                }
                let mul = (self.regs[rs1] as i64 as i128) * (self.regs[rs2] as i64 as i128);
                (mul >> 64u32) as u64
            },
            DecodedInstr::Mulhsu { rs1, rs2, .. } => {
                proof {
                    lemma_product_bounds(self.regs[rs1 as int], self.regs[rs2 as int]);
                }
                let mul = (self.regs[rs1] as i64 as i128) * (self.regs[rs2] as u128 as i128);
                (mul >> 64u32) as u64
            },
            DecodedInstr::Mulhu { rs1, rs2, .. } => {
                proof {
                    lemma_product_bounds(self.regs[rs1 as int], self.regs[rs2 as int]);
                }
                let mul = (self.regs[rs1] as u128) * (self.regs[rs2] as u128);
                (mul >> 64u32) as u64
            },
            DecodedInstr::Div { rs1, rs2, .. } => exec_div_signed(self.regs[rs1], self.regs[rs2]),
            DecodedInstr::Divu { rs1, rs2, .. } => exec_div_unsigned(self.regs[rs1], self.regs[rs2]),
            DecodedInstr::Rem { rs1, rs2, .. } => exec_rem_signed(self.regs[rs1], self.regs[rs2]),
            DecodedInstr::Remu { rs1, rs2, .. } => exec_rem_unsigned(self.regs[rs1], self.regs[rs2]),
            DecodedInstr::Addw { rs1, rs2, .. } => (self.regs[rs1] as i32).wrapping_add(
                self.regs[rs2] as i32,
            ) as i64 as u64,
            DecodedInstr::Subw { rs1, rs2, .. } => (self.regs[rs1] as i32).wrapping_sub(
                self.regs[rs2] as i32,
            ) as i64 as u64,
            DecodedInstr::Sllw { rs1, rs2, .. } => {
                let shamt = self.regs[rs2] & 0x1f;
                proof {
                    lemma_shift_masks(self.regs[rs2 as int]);
                }
                ((self.regs[rs1] as u32) << shamt) as i32 as i64 as u64
            },
            DecodedInstr::Srlw { rs1, rs2, .. } => {
                let shamt = self.regs[rs2] & 0x1f;
                proof {
                    lemma_shift_masks(self.regs[rs2 as int]);
                }
                ((self.regs[rs1] as u32) >> shamt) as i32 as i64 as u64
            },
            DecodedInstr::Sraw { rs1, rs2, .. } => {
                let shamt = self.regs[rs2] & 0x1f;
                proof {
                    lemma_shift_masks(self.regs[rs2 as int]);
                }
                ((self.regs[rs1] as i32) >> shamt) as i64 as u64
            },
            DecodedInstr::Mulw { rs1, rs2, .. } => (self.regs[rs1] as u32).wrapping_mul(
                self.regs[rs2] as u32,
            ) as i32 as i64 as u64,
            DecodedInstr::Divw { rs1, rs2, .. } => exec_divw(self.regs[rs1], self.regs[rs2]),
            DecodedInstr::Divuw { rs1, rs2, .. } => exec_divuw(self.regs[rs1], self.regs[rs2]),
            DecodedInstr::Remw { rs1, rs2, .. } => exec_remw(self.regs[rs1], self.regs[rs2]),
            DecodedInstr::Remuw { rs1, rs2, .. } => exec_remuw(self.regs[rs1], self.regs[rs2]),
            _ => 0,
        }
    }

    fn ri_compute(&self, inst: &DecodedInstr) -> (v: u64)
        requires
            self@.wf(),
            instr_wf(*inst),
            is_ri(*inst),
        ensures
            v == ri_value(*inst, self@.regs),
    {
        match *inst {
            DecodedInstr::Addi { rs1, imm, .. } => self.regs[rs1].wrapping_add(imm),
            DecodedInstr::Slti { rs1, imm, .. } => {
                if (self.regs[rs1] as i64) < (imm as i64) {
                    1
                } else {
                    0
                }
            },
            DecodedInstr::Sltiu { rs1, imm, .. } => {
                if self.regs[rs1] < imm {
                    1
                } else {
                    0
                }
            },
            DecodedInstr::Xori { rs1, imm, .. } => self.regs[rs1] ^ imm,
            DecodedInstr::Ori { rs1, imm, .. } => self.regs[rs1] | imm,
            DecodedInstr::Andi { rs1, imm, .. } => self.regs[rs1] & imm,
            DecodedInstr::Slli { rs1, imm, .. } => {
                let shamt = imm & 0x3f;
                proof {
                    lemma_shift_masks(imm);
                }
                self.regs[rs1] << shamt
            },
            DecodedInstr::Srli { rs1, imm, .. } => {
                let shamt = imm & 0x3f;
                proof {
                    lemma_shift_masks(imm);
                }
                let arithmetic = (imm >> 10u64) & 1;
                if arithmetic == 0 {
                    self.regs[rs1] >> shamt
                } else {
                    ((self.regs[rs1] as i64) >> shamt) as u64
                }
            },
            DecodedInstr::Addiw { rs1, imm, .. } => (self.regs[rs1] as i32).wrapping_add(imm) as i64
                as u64,
            DecodedInstr::Slliw { rs1, shamt, .. } => ((self.regs[rs1] as u32) << shamt) as i32
                as i64 as u64,
            DecodedInstr::Srliw { rs1, shamt, .. } => ((self.regs[rs1] as u32) >> shamt) as i32
                as i64 as u64,
            DecodedInstr::Sraiw { rs1, shamt, .. } => ((self.regs[rs1] as i32) >> shamt) as i64
                as u64,
            _ => 0,
        }
    }

    /// Register-register instructions.
    fn exec_rr(&mut self, bus: &mut Bus, inst: &DecodedInstr) -> (r: Result<(), Exception>)
        requires
            old(self)@.wf(),
            old(bus)@.wf(),
            instr_wf(*inst),
            is_rr(*inst),
            execution_fault(old(self)@, *inst) is None,
            old(self)@.dest == REG_NUM && old(self)@.src1 == REG_NUM && old(self)@.src2 == REG_NUM,
        ensures
            final(self)@.wf(),
            final(bus)@.wf(),
            (r, final(self)@, final(bus)@) == exec_ok_spec(old(self)@, old(bus)@, *inst),
    {
        proof {
            reveal(exec_ok_spec);
        }
        let v = self.rr_compute(inst);
        match *inst {
            DecodedInstr::Add { rd, rs1, rs2, .. } | DecodedInstr::Sub { rd, rs1, rs2, .. }
            | DecodedInstr::Sll { rd, rs1, rs2, .. } | DecodedInstr::Slt { rd, rs1, rs2, .. }
            | DecodedInstr::Sltu { rd, rs1, rs2, .. } | DecodedInstr::Xor { rd, rs1, rs2, .. }
            | DecodedInstr::Srl { rd, rs1, rs2, .. } | DecodedInstr::Sra { rd, rs1, rs2, .. }
            | DecodedInstr::Or { rd, rs1, rs2, .. } | DecodedInstr::And { rd, rs1, rs2, .. }
            | DecodedInstr::Mul { rd, rs1, rs2, .. } | DecodedInstr::Mulh { rd, rs1, rs2, .. }
            | DecodedInstr::Mulhsu { rd, rs1, rs2, .. } | DecodedInstr::Mulhu { rd, rs1, rs2, .. }
            | DecodedInstr::Div { rd, rs1, rs2, .. } | DecodedInstr::Divu { rd, rs1, rs2, .. }
            | DecodedInstr::Rem { rd, rs1, rs2, .. } | DecodedInstr::Remu { rd, rs1, rs2, .. }
            | DecodedInstr::Addw { rd, rs1, rs2, .. } | DecodedInstr::Subw { rd, rs1, rs2, .. }
            | DecodedInstr::Sllw { rd, rs1, rs2, .. } | DecodedInstr::Srlw { rd, rs1, rs2, .. }
            | DecodedInstr::Sraw { rd, rs1, rs2, .. } | DecodedInstr::Mulw { rd, rs1, rs2, .. }
            | DecodedInstr::Divw { rd, rs1, rs2, .. } | DecodedInstr::Divuw { rd, rs1, rs2, .. }
            | DecodedInstr::Remw { rd, rs1, rs2, .. } | DecodedInstr::Remuw { rd, rs1, rs2, .. } => {
                self.regs[rd] = v;
                self.mark_as_dest(rd);
                self.mark_as_src1(rs1);
                self.mark_as_src2(rs2);
                assert(self@ =~= marked(set_reg(old(self)@, rd, v), rd, rs1, rs2));
            },
            _ => {},
        }
        Ok(())
    }

    /// Register-immediate instructions.
    fn exec_ri(&mut self, bus: &mut Bus, inst: &DecodedInstr) -> (r: Result<(), Exception>)
        requires
            old(self)@.wf(),
            old(bus)@.wf(),
            instr_wf(*inst),
            is_ri(*inst),
            execution_fault(old(self)@, *inst) is None,
            old(self)@.dest == REG_NUM && old(self)@.src1 == REG_NUM && old(self)@.src2 == REG_NUM,
        ensures
            final(self)@.wf(),
            final(bus)@.wf(),
            (r, final(self)@, final(bus)@) == exec_ok_spec(old(self)@, old(bus)@, *inst),
    {
        proof {
            reveal(exec_ok_spec);
        }
        let v = self.ri_compute(inst);
        match *inst {
            DecodedInstr::Addi { rd, rs1, .. } | DecodedInstr::Slti { rd, rs1, .. }
            | DecodedInstr::Sltiu { rd, rs1, .. } | DecodedInstr::Xori { rd, rs1, .. }
            | DecodedInstr::Ori { rd, rs1, .. } | DecodedInstr::Andi { rd, rs1, .. }
            | DecodedInstr::Slli { rd, rs1, .. } | DecodedInstr::Srli { rd, rs1, .. }
            | DecodedInstr::Addiw { rd, rs1, .. } | DecodedInstr::Slliw { rd, rs1, .. }
            | DecodedInstr::Srliw { rd, rs1, .. } | DecodedInstr::Sraiw { rd, rs1, .. } => {
                self.regs[rd] = v;
                self.mark_as_dest(rd);
                self.mark_as_src1(rs1);
                assert(self@ =~= marked(set_reg(old(self)@, rd, v), rd, rs1, REG_NUM));
            },
            _ => {},
        }
        Ok(())
    }

    /// Loads.
    fn exec_load(&mut self, bus: &mut Bus, inst: &DecodedInstr) -> (r: Result<(), Exception>)
        requires
            old(self)@.wf(),
            old(bus)@.wf(),
            instr_wf(*inst),
            inst is Lb || inst is Lh || inst is Lw || inst is Ld || inst is Lbu || inst is Lhu
                || inst is Lwu,
            old(self)@.dest == REG_NUM && old(self)@.src1 == REG_NUM && old(self)@.src2 == REG_NUM,
        ensures
            final(self)@.wf(),
            final(bus)@.wf(),
            (r, final(self)@, final(bus)@) == exec_ok_spec(old(self)@, old(bus)@, *inst),
    {
        proof {
            reveal(exec_ok_spec);
        }
        let (rd, rs1, imm, size) = match *inst {
            DecodedInstr::Lb { rd, rs1, imm, .. } | DecodedInstr::Lbu { rd, rs1, imm, .. } => (
                rd,
                rs1,
                imm,
                8u64,
            ),
            DecodedInstr::Lh { rd, rs1, imm, .. } | DecodedInstr::Lhu { rd, rs1, imm, .. } => (
                rd,
                rs1,
                imm,
                16u64,
            ),
            DecodedInstr::Lw { rd, rs1, imm, .. } | DecodedInstr::Lwu { rd, rs1, imm, .. } => (
                rd,
                rs1,
                imm,
                32u64,
            ),
            DecodedInstr::Ld { rd, rs1, imm, .. } => (rd, rs1, imm, 64u64),
            _ => (0, 0, 0, 64u64),
        };
        let addr = self.regs[rs1].wrapping_add(imm);
        let val = match self.load(bus, addr, size) {
            Ok(v) => v,
            Err(e) => {
                return Err(e);
            },
        };
        let ghost c1 = self@;
        proof {
            lemma_access_frame(old(self)@, old(bus)@, addr, size, 0);
        }
        let extended = match *inst {
            DecodedInstr::Lb { .. } => val as i8 as i64 as u64,
            DecodedInstr::Lh { .. } => val as i16 as i64 as u64,
            DecodedInstr::Lw { .. } => val as i32 as i64 as u64,
            _ => val,
        };
        self.regs[rd] = extended;
        self.mark_as_dest(rd);
        self.mark_as_src1(rs1);
        assert(self@ =~= marked(set_reg(c1, rd, extended), rd, rs1, REG_NUM));
        Ok(())
    }

    /// Stores.
    fn exec_store(&mut self, bus: &mut Bus, inst: &DecodedInstr) -> (r: Result<(), Exception>)
        requires
            old(self)@.wf(),
            old(bus)@.wf(),
            instr_wf(*inst),
            inst is Sb || inst is Sh || inst is Sw || inst is Sd,
            old(self)@.dest == REG_NUM && old(self)@.src1 == REG_NUM && old(self)@.src2 == REG_NUM,
        ensures
            final(self)@.wf(),
            final(bus)@.wf(),
            (r, final(self)@, final(bus)@) == exec_ok_spec(old(self)@, old(bus)@, *inst),
    {
        proof {
            reveal(exec_ok_spec);
        }
        let (rs1, rs2, imm, size) = match *inst {
            DecodedInstr::Sb { rs1, rs2, imm, .. } => (rs1, rs2, imm, 8u64),
            DecodedInstr::Sh { rs1, rs2, imm, .. } => (rs1, rs2, imm, 16u64),
            DecodedInstr::Sw { rs1, rs2, imm, .. } => (rs1, rs2, imm, 32u64),
            DecodedInstr::Sd { rs1, rs2, imm, .. } => (rs1, rs2, imm, 64u64),
            _ => (0, 0, 0, 64u64),
        };
        let addr = self.regs[rs1].wrapping_add(imm as i32 as i64 as u64);
        let value = self.regs[rs2];
        match self.store(bus, addr, size, value) {
            Ok(_) => {},
            Err(e) => {
                return Err(e);
            },
        }
        let ghost c1 = self@;
        proof {
            lemma_access_frame(old(self)@, old(bus)@, addr, size, value);
        }
        self.mark_as_src1(rs1);
        self.mark_as_dest(rs2);
        assert(self@ =~= marked(c1, rs2, rs1, REG_NUM));
        Ok(())
    }

    /// Jumps, branches, `lui` and `auipc`.
    fn exec_control(&mut self, bus: &mut Bus, inst: &DecodedInstr) -> (r: Result<(), Exception>)
        requires
            old(self)@.wf(),
            old(bus)@.wf(),
            instr_wf(*inst),
            inst is Jal || inst is Jalr || inst is Beq || inst is Bne || inst is Blt || inst is Bge
                || inst is Bltu || inst is Bgeu || inst is Lui || inst is Auipc,
            execution_fault(old(self)@, *inst) is None,
            old(self)@.dest == REG_NUM && old(self)@.src1 == REG_NUM && old(self)@.src2 == REG_NUM,
        ensures
            final(self)@.wf(),
            final(bus)@.wf(),
            (r, final(self)@, final(bus)@) == exec_ok_spec(old(self)@, old(bus)@, *inst),
    {
        proof {
            reveal(exec_ok_spec);
        }
        let ghost c0 = self@;
        match *inst {
            DecodedInstr::Jal { rd, imm, .. } => {
                self.regs[rd] = self.pc.wrapping_add(4);
                self.pc = self.pc.wrapping_add(imm).wrapping_sub(4);
                self.mark_as_dest(rd);
                assert(self@ =~= marked(
                    CpuState {
                        pc: c0.pc.wrapping_add(imm).wrapping_sub(4),
                        ..set_reg(c0, rd, c0.pc.wrapping_add(4))
                    },
                    rd,
                    REG_NUM,
                    REG_NUM,
                ));
            },
            DecodedInstr::Jalr { rd, rs1, imm, .. } => {
                let return_addr = self.pc.wrapping_add(4);
                let next_pc = self.regs[rs1].wrapping_add(imm).wrapping_sub(4);
                self.regs[rd] = return_addr;
                self.pc = next_pc;
                self.mark_as_dest(rd);
                self.mark_as_src1(rs1);
                assert(self@ =~= marked(
                    CpuState { pc: next_pc, ..set_reg(c0, rd, return_addr) },
                    rd,
                    rs1,
                    REG_NUM,
                ));
            },
            DecodedInstr::Beq { rs1, rs2, imm, .. } | DecodedInstr::Bne { rs1, rs2, imm, .. }
            | DecodedInstr::Blt { rs1, rs2, imm, .. } | DecodedInstr::Bge { rs1, rs2, imm, .. }
            | DecodedInstr::Bltu { rs1, rs2, imm, .. } | DecodedInstr::Bgeu {
                rs1,
                rs2,
                imm,
                ..
            } => {
                let a = self.regs[rs1];
                let b = self.regs[rs2];
                let taken = match *inst {
                    DecodedInstr::Beq { .. } => a == b,
                    DecodedInstr::Bne { .. } => a != b,
                    DecodedInstr::Blt { .. } => (a as i64) < (b as i64),
                    DecodedInstr::Bge { .. } => (a as i64) >= (b as i64),
                    DecodedInstr::Bltu { .. } => a < b,
                    _ => a >= b,
                };
                if taken {
                    self.pc = self.pc.wrapping_add(imm).wrapping_sub(4);
                }
                self.mark_as_src1(rs1);
                self.mark_as_src2(rs2);
                assert(self@ =~= marked(
                    if branch_taken(*inst, c0.regs) {
                        CpuState { pc: c0.pc.wrapping_add(imm).wrapping_sub(4), ..c0 }
                    } else {
                        c0
                    },
                    REG_NUM,
                    rs1,
                    rs2,
                ));
            },
            DecodedInstr::Lui { rd, imm, .. } => {
                self.regs[rd] = imm;
                self.mark_as_dest(rd);
                assert(self@ =~= marked(set_reg(c0, rd, imm), rd, REG_NUM, REG_NUM));
            },
            DecodedInstr::Auipc { rd, imm, .. } => {
                let v = self.pc.wrapping_add(imm);
                self.regs[rd] = v;
                self.mark_as_dest(rd);
                assert(self@ =~= marked(set_reg(c0, rd, v), rd, REG_NUM, REG_NUM));
            },
            _ => {},
        }
        Ok(())
    }

    /// Environment calls, trap returns, fences, hints and illegal instructions.
    fn exec_system(&mut self, bus: &mut Bus, inst: &DecodedInstr) -> (r: Result<(), Exception>)
        requires
            old(self)@.wf(),
            old(bus)@.wf(),
            instr_wf(*inst),
            inst is Ecall || inst is Ebreak || inst is Wfi || inst is Sret || inst is Mret
                || inst is Sfence || inst is Fence || inst is IllegalInstruction,
            execution_fault(old(self)@, *inst) is None,
            old(self)@.dest == REG_NUM && old(self)@.src1 == REG_NUM && old(self)@.src2 == REG_NUM,
        ensures
            final(self)@.wf(),
            final(bus)@.wf(),
            (r, final(self)@, final(bus)@) == exec_ok_spec(old(self)@, old(bus)@, *inst),
    {
        proof {
            reveal(exec_ok_spec);
        }
        match *inst {
            DecodedInstr::Ecall { .. } => {
                if self.mode == M_MODE {
                    Exception::EnvironmentalCallFromMMode.take_trap(self);
                } else if self.mode == S_MODE {
                    Exception::EnvironmentalCallFromSMode.take_trap(self);
                } else {
                    Exception::EnvironmentalCallFromUMode.take_trap(self);
                }
                Ok(())
            },
            DecodedInstr::Sret { raw } => {
                if self.mode < S_MODE {
                    return Err(Exception::IllegalInstruction(raw));
                }
                self.return_from_supervisor_trap();
                Ok(())
            },
            DecodedInstr::Mret { raw } => {
                if self.mode < M_MODE {
                    return Err(Exception::IllegalInstruction(raw));
                }
                self.return_from_machine_trap();
                Ok(())
            },
            DecodedInstr::Sfence { .. } | DecodedInstr::Fence { .. } => {
                self.address_translation_cache.clear();
                self.block_cache.clear();
                assert(self@ =~= CpuState {
                    tlb: Map::empty(),
                    blocks: Map::empty(),
                    ..old(self)@
                });
                Ok(())
            },
            DecodedInstr::IllegalInstruction { inst: w } => Err(Exception::IllegalInstruction(w)),
            _ => Ok(()),
        }
    }

    /// CSR instructions.
    fn exec_csr(&mut self, bus: &mut Bus, inst: &DecodedInstr) -> (r: Result<(), Exception>)
        requires
            old(self)@.wf(),
            old(bus)@.wf(),
            instr_wf(*inst),
            inst is Csrrw || inst is Csrrs || inst is Csrrc || inst is Csrrwi || inst is Csrrsi
                || inst is Csrrci,
            old(self)@.dest == REG_NUM && old(self)@.src1 == REG_NUM && old(self)@.src2 == REG_NUM,
        ensures
            final(self)@.wf(),
            final(bus)@.wf(),
            (r, final(self)@, final(bus)@) == exec_ok_spec(old(self)@, old(bus)@, *inst),
    {
        proof {
            reveal(exec_ok_spec);
        }
        let ghost c0 = self@;
        match *inst {
            DecodedInstr::Csrrw { rd, rs1, csr, .. } | DecodedInstr::Csrrwi { rd, rs1, csr, .. } => {
                let value = match *inst {
                    DecodedInstr::Csrrwi { uimm, .. } => uimm as u64,
                    _ => self.regs[rs1],
                };
                if rd != 0 {
                    self.regs[rd] = self.csr.load_csrs(csr, self.cycle);
                }
                let ghost c1 = self@;
                self.csr.store_csrs(csr, value);
                self.mark_as_dest(rd);
                self.mark_as_src1(rs1);
                assert(self@ =~= marked(
                    CpuState { csr: csr_write(c1.csr, csr as int, value), ..c1 },
                    rd,
                    rs1,
                    REG_NUM,
                ));
            },
            DecodedInstr::Csrrs { rd, rs1, csr, .. } | DecodedInstr::Csrrc { rd, rs1, csr, .. }
            | DecodedInstr::Csrrsi { rd, rs1, csr, .. } | DecodedInstr::Csrrci {
                rd,
                rs1,
                csr,
                ..
            } => {
                let old_val = self.csr.load_csrs(csr, self.cycle);
                let src = self.regs[rs1];
                self.regs[rd] = old_val;
                let ghost c1 = self@;
                let new_val = match *inst {
                    DecodedInstr::Csrrs { .. } => src | old_val,
                    DecodedInstr::Csrrc { .. } => old_val & !src,
                    DecodedInstr::Csrrsi { uimm, .. } => uimm as u64 | old_val,
                    DecodedInstr::Csrrci { uimm, .. } => old_val & !(uimm as u64),
                    _ => 0,
                };
                if rs1 != 0 {
                    self.csr.store_csrs(csr, new_val);
                }
                self.mark_as_dest(rd);
                self.mark_as_src1(rs1);
                assert(self@ =~= marked(
                    if rs1 != 0 {
                        CpuState { csr: csr_write(c1.csr, csr as int, new_val), ..c1 }
                    } else {
                        c1
                    },
                    rd,
                    rs1,
                    REG_NUM,
                ));
            },
            _ => {},
        }
        Ok(())
    }

    /// Atomic memory operations on words and doublewords.
    fn exec_amo(&mut self, bus: &mut Bus, inst: &DecodedInstr) -> (r: Result<(), Exception>)
        requires
            old(self)@.wf(),
            old(bus)@.wf(),
            instr_wf(*inst),
            inst is Amoswap || inst is Amoadd || inst is Amoxor || inst is Amoand || inst is Amoor
                || inst is Amomin || inst is Amomax || inst is Amominu || inst is Amomaxu,
            old(self)@.dest == REG_NUM && old(self)@.src1 == REG_NUM && old(self)@.src2 == REG_NUM,
        ensures
            final(self)@.wf(),
            final(bus)@.wf(),
            (r, final(self)@, final(bus)@) == exec_ok_spec(old(self)@, old(bus)@, *inst),
    {
        let (rd, rs1, rs2, raw) = match *inst {
            DecodedInstr::Amoswap { rd, rs1, rs2, raw } | DecodedInstr::Amoadd { rd, rs1, rs2, raw }
            | DecodedInstr::Amoxor { rd, rs1, rs2, raw } | DecodedInstr::Amoand { rd, rs1, rs2, raw }
            | DecodedInstr::Amoor { rd, rs1, rs2, raw } | DecodedInstr::Amomin { rd, rs1, rs2, raw }
            | DecodedInstr::Amomax { rd, rs1, rs2, raw } | DecodedInstr::Amominu { rd, rs1, rs2, raw }
            | DecodedInstr::Amomaxu { rd, rs1, rs2, raw } => (rd, rs1, rs2, raw),
            _ => (0, 0, 0, 0),
        };
        let double = (raw >> 12u32) & 7u32 == 3u32;
        let w: u64 = if double { 64 } else { 32 };
        assert(w == amo_width(*inst));
        assert(exec_ok_spec(old(self)@, old(bus)@, *inst) == amo_spec(
            old(self)@,
            old(bus)@,
            *inst,
            rd,
            rs1,
            rs2,
        )) by {
            reveal(exec_ok_spec);
        }
        let addr = self.regs[rs1];
        let val = match self.load(bus, addr, w) {
            Ok(v) => v,
            Err(e) => {
                return Err(e);
            },
        };
        proof {
            lemma_access_frame(old(self)@, old(bus)@, addr, w, 0);
        }
        let src = self.regs[rs2];
        let (to_rd, to_mem) = Self::amo_compute(inst, double, val, src);
        self.regs[rd] = to_rd;
        let ghost c2 = self@;
        let ghost b1 = bus@;
        match self.store(bus, addr, w, to_mem) {
            Ok(_) => {},
            Err(e) => {
                return Err(e);
            },
        }
        proof {
            lemma_access_frame(c2, b1, addr, w, to_mem);
        }
        let ghost c3 = self@;
        self.mark_as_dest(rd);
        self.mark_as_src1(rs1);
        self.mark_as_src2(rs2);
        assert(self@ =~= marked(c3, rd, rs1, rs2));
        Ok(())
    }

    /// The value an atomic memory operation writes to `rd` and the value it stores.
    fn amo_compute(inst: &DecodedInstr, double: bool, val: u64, src: u64) -> (p: (u64, u64))
        requires
            double == amo_is_double(*inst),
        ensures
            p == amo_values(*inst, val, src),
    {
        reveal(amo_values);
        if double {
            match *inst {
                DecodedInstr::Amoswap { .. } => (val, src),
                DecodedInstr::Amoadd { .. } => (val, val.wrapping_add(src)),
                DecodedInstr::Amoxor { .. } => (val, val ^ src),
                DecodedInstr::Amoand { .. } => (val, val & src),
                DecodedInstr::Amoor { .. } => (val, val | src),
                DecodedInstr::Amomin { .. } => (val, if (val as i64) <= (src as i64) { val } else { src }),
                DecodedInstr::Amomax { .. } => (val, if (val as i64) <= (src as i64) { src } else { val }),
                DecodedInstr::Amominu { .. } => (val, if val <= src { val } else { src }),
                _ => (val, if val <= src { src } else { val }),
            }
        } else {
            let loaded = val as u32 as i32 as i64 as u64;
            match *inst {
                DecodedInstr::Amoswap { .. } => (loaded, src),
                DecodedInstr::Amoadd { .. } => (loaded, val.wrapping_add(src)),
                DecodedInstr::Amoxor { .. } => (loaded, val ^ src),
                DecodedInstr::Amoand { .. } => (loaded, val & src),
                DecodedInstr::Amoor { .. } => (loaded, val | src),
                DecodedInstr::Amomin { .. } => (loaded, if (val as u32 as i32) <= (src as u32 as i32) { val } else { src }),
                DecodedInstr::Amomax { .. } => (loaded, if (val as u32 as i32) <= (src as u32 as i32) { src } else { val }),
                DecodedInstr::Amominu { .. } => (loaded, if (val as u32) <= (src as u32) { val } else { src }),
                _ => (loaded, if (val as u32) <= (src as u32) { src } else { val }),
            }
        }
    }

    /// Executes one decoded instruction. The program counter is left at the instruction
    /// (jumps and taken branches leave it one instruction before their target), as the step
    /// loop adds 4 afterwards. An instruction that cannot be carried out (division by zero,
    /// overflow, an environment call from an unknown mode) halts the hart and reports an
    /// illegal instruction.
    pub fn execute(&mut self, bus: &mut Bus, inst: &DecodedInstr) -> (r: Result<(), Exception>)
        requires
            old(self)@.wf(),
            old(bus)@.wf(),
            instr_wf(*inst),
        ensures
            final(self)@.wf(),
            final(bus)@.wf(),
            (r, final(self)@, final(bus)@) == exec_spec(old(self)@, old(bus)@, *inst),
    {
        self.clear_reg_marks();
        if let Some(h) = self.execution_fault(inst) {
            self.halt = Some(h);
            return Err(Exception::IllegalInstruction(0));
        }
        match *inst {
            DecodedInstr::Add { .. } | DecodedInstr::Sub { .. } | DecodedInstr::Sll { .. }
            | DecodedInstr::Slt { .. } | DecodedInstr::Sltu { .. } | DecodedInstr::Xor { .. }
            | DecodedInstr::Srl { .. } | DecodedInstr::Sra { .. } | DecodedInstr::Or { .. }
            | DecodedInstr::And { .. } | DecodedInstr::Mul { .. } | DecodedInstr::Mulh { .. }
            | DecodedInstr::Mulhsu { .. } | DecodedInstr::Mulhu { .. } | DecodedInstr::Div { .. }
            | DecodedInstr::Divu { .. } | DecodedInstr::Rem { .. } | DecodedInstr::Remu { .. }
            | DecodedInstr::Addw { .. } | DecodedInstr::Subw { .. } | DecodedInstr::Sllw { .. }
            | DecodedInstr::Srlw { .. } | DecodedInstr::Sraw { .. } | DecodedInstr::Mulw { .. }
            | DecodedInstr::Divw { .. } | DecodedInstr::Divuw { .. } | DecodedInstr::Remw { .. }
            | DecodedInstr::Remuw { .. } => self.exec_rr(bus, inst),
            DecodedInstr::Addi { .. } | DecodedInstr::Slti { .. } | DecodedInstr::Sltiu { .. }
            | DecodedInstr::Xori { .. } | DecodedInstr::Ori { .. } | DecodedInstr::Andi { .. }
            | DecodedInstr::Slli { .. } | DecodedInstr::Srli { .. } | DecodedInstr::Addiw { .. }
            | DecodedInstr::Slliw { .. } | DecodedInstr::Srliw { .. } | DecodedInstr::Sraiw {
                ..
            } => self.exec_ri(bus, inst),
            DecodedInstr::Lb { .. } | DecodedInstr::Lh { .. } | DecodedInstr::Lw { .. }
            | DecodedInstr::Ld { .. } | DecodedInstr::Lbu { .. } | DecodedInstr::Lhu { .. }
            | DecodedInstr::Lwu { .. } => self.exec_load(bus, inst),
            DecodedInstr::Sb { .. } | DecodedInstr::Sh { .. } | DecodedInstr::Sw { .. }
            | DecodedInstr::Sd { .. } => self.exec_store(bus, inst),
            DecodedInstr::Jal { .. } | DecodedInstr::Jalr { .. } | DecodedInstr::Beq { .. }
            | DecodedInstr::Bne { .. } | DecodedInstr::Blt { .. } | DecodedInstr::Bge { .. }
            | DecodedInstr::Bltu { .. } | DecodedInstr::Bgeu { .. } | DecodedInstr::Lui { .. }
            | DecodedInstr::Auipc { .. } => self.exec_control(bus, inst),
            DecodedInstr::Csrrw { .. } | DecodedInstr::Csrrs { .. } | DecodedInstr::Csrrc { .. }
            | DecodedInstr::Csrrwi { .. } | DecodedInstr::Csrrsi { .. } | DecodedInstr::Csrrci {
                ..
            } => self.exec_csr(bus, inst),
            DecodedInstr::Amoswap { .. } | DecodedInstr::Amoadd { .. } | DecodedInstr::Amoxor {
                ..
            } | DecodedInstr::Amoand { .. } | DecodedInstr::Amoor { .. } | DecodedInstr::Amomin {
                ..
            } | DecodedInstr::Amomax { .. } | DecodedInstr::Amominu { .. }
            | DecodedInstr::Amomaxu { .. } => self.exec_amo(bus, inst),
            _ => self.exec_system(bus, inst),
        }
    }
}


/// Conditional branches: the register file, memory and everything else of the hart but the
/// program counter stay as they are; the program counter moves to one instruction before
/// `pc + imm` (the step loop adds 4) exactly when the condition holds, and stays otherwise.
/// `beq`/`bne` compare for equality, `blt`/`bge` compare as signed 64-bit numbers and
/// `bltu`/`bgeu` as unsigned ones; each pair decides oppositely.
pub proof fn lemma_branch_semantics(c: CpuState, b: BusState, inst: DecodedInstr)
    requires
        instr_wf(inst),
        inst is Beq || inst is Bne || inst is Blt || inst is Bge || inst is Bltu || inst is Bgeu,
    ensures
        ({
            let (r, c2, b2) = exec_spec(c, b, inst);
            let (rs1, rs2, imm) = match inst {
                DecodedInstr::Beq { rs1, rs2, imm, .. } => (rs1, rs2, imm),
                DecodedInstr::Bne { rs1, rs2, imm, .. } => (rs1, rs2, imm),
                DecodedInstr::Blt { rs1, rs2, imm, .. } => (rs1, rs2, imm),
                DecodedInstr::Bge { rs1, rs2, imm, .. } => (rs1, rs2, imm),
                DecodedInstr::Bltu { rs1, rs2, imm, .. } => (rs1, rs2, imm),
                DecodedInstr::Bgeu { rs1, rs2, imm, .. } => (rs1, rs2, imm),
                _ => (0usize, 0usize, 0u64),
            };
            let x = c.regs[rs1 as int];
            let y = c.regs[rs2 as int];
            let taken = match inst {
                DecodedInstr::Beq { .. } => x == y,
                DecodedInstr::Bne { .. } => x != y,
                DecodedInstr::Blt { .. } => (x as i64) < (y as i64),
                DecodedInstr::Bge { .. } => (x as i64) >= (y as i64),
                DecodedInstr::Bltu { .. } => x < y,
                _ => x >= y,
            };
            &&& r is Ok
            &&& b2 == b
            &&& c2.regs == c.regs
            &&& c2.mode == c.mode
            &&& c2.csr == c.csr
            &&& c2.halt == c.halt
            &&& c2.pc == if taken { c.pc.wrapping_add(imm).wrapping_sub(4) } else { c.pc }
        }),
{
    reveal(exec_ok_spec);
}


/// Register-register arithmetic: the instruction writes to `rd` the value below, computed
/// from `x = rs1` and `y = rs2`, and changes nothing else but the register highlights.
/// Shifts use the low six bits of `y` (five for the word forms); `slt` compares signed and
/// `sltu` unsigned; division by zero gives all ones and its remainder the dividend, and the
/// overflowing signed division gives the dividend and remainder zero; the word forms work on
/// the low 32 bits and sign-extend their result.
pub proof fn lemma_register_arithmetic(c: CpuState, b: BusState, inst: DecodedInstr)
    requires
        instr_wf(inst),
        inst is Divw || inst is Remw || inst is Add || inst is Sub || inst is Sll || inst is Slt || inst is Sltu || inst is Xor || inst is Srl || inst is Sra || inst is Or || inst is And || inst is Mul || inst is Div || inst is Divu || inst is Rem || inst is Remu || inst is Addw || inst is Subw || inst is Sllw || inst is Srlw || inst is Sraw || inst is Mulw || inst is Divuw || inst is Remuw,
    ensures
        ({
            let (rd, rs1, rs2) = match inst {
                DecodedInstr::Divw { rd, rs1, rs2, .. } => (rd, rs1, rs2),
                DecodedInstr::Remw { rd, rs1, rs2, .. } => (rd, rs1, rs2),
                DecodedInstr::Add { rd, rs1, rs2, .. } => (rd, rs1, rs2),
                DecodedInstr::Sub { rd, rs1, rs2, .. } => (rd, rs1, rs2),
                DecodedInstr::Sll { rd, rs1, rs2, .. } => (rd, rs1, rs2),
                DecodedInstr::Slt { rd, rs1, rs2, .. } => (rd, rs1, rs2),
                DecodedInstr::Sltu { rd, rs1, rs2, .. } => (rd, rs1, rs2),
                DecodedInstr::Xor { rd, rs1, rs2, .. } => (rd, rs1, rs2),
                DecodedInstr::Srl { rd, rs1, rs2, .. } => (rd, rs1, rs2),
                DecodedInstr::Sra { rd, rs1, rs2, .. } => (rd, rs1, rs2),
                DecodedInstr::Or { rd, rs1, rs2, .. } => (rd, rs1, rs2),
                DecodedInstr::And { rd, rs1, rs2, .. } => (rd, rs1, rs2),
                DecodedInstr::Mul { rd, rs1, rs2, .. } => (rd, rs1, rs2),
                DecodedInstr::Div { rd, rs1, rs2, .. } => (rd, rs1, rs2),
                DecodedInstr::Divu { rd, rs1, rs2, .. } => (rd, rs1, rs2),
                DecodedInstr::Rem { rd, rs1, rs2, .. } => (rd, rs1, rs2),
                DecodedInstr::Remu { rd, rs1, rs2, .. } => (rd, rs1, rs2),
                DecodedInstr::Addw { rd, rs1, rs2, .. } => (rd, rs1, rs2),
                DecodedInstr::Subw { rd, rs1, rs2, .. } => (rd, rs1, rs2),
                DecodedInstr::Sllw { rd, rs1, rs2, .. } => (rd, rs1, rs2),
                DecodedInstr::Srlw { rd, rs1, rs2, .. } => (rd, rs1, rs2),
                DecodedInstr::Sraw { rd, rs1, rs2, .. } => (rd, rs1, rs2),
                DecodedInstr::Mulw { rd, rs1, rs2, .. } => (rd, rs1, rs2),
                DecodedInstr::Divuw { rd, rs1, rs2, .. } => (rd, rs1, rs2),
                DecodedInstr::Remuw { rd, rs1, rs2, .. } => (rd, rs1, rs2),
                _ => (0usize, 0usize, 0usize),
            };
            let x = c.regs[rs1 as int];
            let y = c.regs[rs2 as int];
            let v: u64 = match inst {
                DecodedInstr::Divw { .. } => if y as i32 == 0 { u64::MAX } else if x as i32 == i32::MIN && y as i32 == -1 { x as i32 as i64 as u64 } else { (x as i32).div_spec(y as i32) as i64 as u64 },
                DecodedInstr::Remw { .. } => if y as i32 == 0 { x as i32 as i64 as u64 } else if x as i32 == i32::MIN && y as i32 == -1 { 0 } else { (x as i32).rem_spec(y as i32) as i64 as u64 },
                DecodedInstr::Add { .. } => x.wrapping_add(y),
                DecodedInstr::Sub { .. } => x.wrapping_sub(y),
                DecodedInstr::Sll { .. } => x << (y & 0x3f),
                DecodedInstr::Slt { .. } => if (x as i64) < (y as i64) { 1u64 } else { 0u64 },
                DecodedInstr::Sltu { .. } => if x < y { 1u64 } else { 0u64 },
                DecodedInstr::Xor { .. } => x ^ y,
                DecodedInstr::Srl { .. } => x >> (y & 0x3f),
                DecodedInstr::Sra { .. } => ((x as i64) >> (y & 0x3f)) as u64,
                DecodedInstr::Or { .. } => x | y,
                DecodedInstr::And { .. } => x & y,
                DecodedInstr::Mul { .. } => x.wrapping_mul(y),
                DecodedInstr::Div { .. } => if y as i64 == 0 { u64::MAX } else if x as i64 == i64::MIN && y as i64 == -1 { x } else { (x as i64).div_spec(y as i64) as u64 },
                DecodedInstr::Divu { .. } => if y == 0 { u64::MAX } else { x / y },
                DecodedInstr::Rem { .. } => if y as i64 == 0 { x } else if x as i64 == i64::MIN && y as i64 == -1 { 0 } else { (x as i64).rem_spec(y as i64) as u64 },
                DecodedInstr::Remu { .. } => if y == 0 { x } else { x % y },
                DecodedInstr::Addw { .. } => (x as i32).wrapping_add(y as i32) as i64 as u64,
                DecodedInstr::Subw { .. } => (x as i32).wrapping_sub(y as i32) as i64 as u64,
                DecodedInstr::Sllw { .. } => ((x as u32) << (y & 0x1f)) as i32 as i64 as u64,
                DecodedInstr::Srlw { .. } => ((x as u32) >> (y & 0x1f)) as i32 as i64 as u64,
                DecodedInstr::Sraw { .. } => ((x as i32) >> (y & 0x1f)) as i64 as u64,
                DecodedInstr::Mulw { .. } => (x as u32).wrapping_mul(y as u32) as i32 as i64 as u64,
                DecodedInstr::Divuw { .. } => if y as u32 == 0 { u64::MAX } else { ((x as u32) / (y as u32)) as i32 as i64 as u64 },
                DecodedInstr::Remuw { .. } => if y as u32 == 0 { x as u32 as i32 as i64 as u64 } else { ((x as u32) % (y as u32)) as i32 as i64 as u64 },
                _ => 0,
            };
            let (r, c2, b2) = exec_spec(c, b, inst);
            &&& r is Ok
            &&& b2 == b
            &&& c2.regs == c.regs.update(rd as int, v)
            &&& c2.pc == c.pc
            &&& c2.csr == c.csr
            &&& c2.mode == c.mode
        }),
{
    reveal(exec_ok_spec);
}

/// Register-immediate arithmetic: the instruction writes to `rd` the value below, computed
/// from `x = rs1` and the sign-extended immediate, and changes nothing else but the register
/// highlights; `slti` compares signed and `sltiu` unsigned, on all 64 bits.
pub proof fn lemma_immediate_arithmetic(c: CpuState, b: BusState, inst: DecodedInstr)
    requires
        instr_wf(inst),
        inst is Addi || inst is Slti || inst is Sltiu || inst is Xori || inst is Ori || inst is Andi || inst is Slli,
    ensures
        ({
            let (rd, rs1, imm) = match inst {
                DecodedInstr::Addi { rd, rs1, imm, .. } => (rd, rs1, imm),
                DecodedInstr::Slti { rd, rs1, imm, .. } => (rd, rs1, imm),
                DecodedInstr::Sltiu { rd, rs1, imm, .. } => (rd, rs1, imm),
                DecodedInstr::Xori { rd, rs1, imm, .. } => (rd, rs1, imm),
                DecodedInstr::Ori { rd, rs1, imm, .. } => (rd, rs1, imm),
                DecodedInstr::Andi { rd, rs1, imm, .. } => (rd, rs1, imm),
                DecodedInstr::Slli { rd, rs1, imm, .. } => (rd, rs1, imm),
                _ => (0usize, 0usize, 0u64),
            };
            let x = c.regs[rs1 as int];
            let v: u64 = match inst {
                DecodedInstr::Addi { .. } => x.wrapping_add(imm),
                DecodedInstr::Slti { .. } => if (x as i64) < (imm as i64) { 1u64 } else { 0u64 },
                DecodedInstr::Sltiu { .. } => if x < imm { 1u64 } else { 0u64 },
                DecodedInstr::Xori { .. } => x ^ imm,
                DecodedInstr::Ori { .. } => x | imm,
                DecodedInstr::Andi { .. } => x & imm,
                DecodedInstr::Slli { .. } => x << (imm & 0x3f),
                _ => 0,
            };
            let (r, c2, b2) = exec_spec(c, b, inst);
            &&& r is Ok
            &&& b2 == b
            &&& c2.regs == c.regs.update(rd as int, v)
            &&& c2.pc == c.pc
            &&& c2.csr == c.csr
            &&& c2.mode == c.mode
        }),
{
    reveal(exec_ok_spec);
}

/// Jumps: `jal` and `jalr` write the address of the next instruction (`pc + 4`) to `rd` and
/// move the program counter to one instruction before the target (the step loop adds 4):
/// `pc + imm` for `jal`, `rs1 + imm` (with `rs1` read before `rd` is written) for `jalr`.
pub proof fn lemma_jumps(c: CpuState, b: BusState, inst: DecodedInstr)
    requires
        instr_wf(inst),
        inst is Jal || inst is Jalr,
    ensures
        ({
            let (r, c2, b2) = exec_spec(c, b, inst);
            let (rd, target) = match inst {
                DecodedInstr::Jal { rd, imm, .. } => (rd, c.pc.wrapping_add(imm)),
                DecodedInstr::Jalr { rd, rs1, imm, .. } => (rd, c.regs[rs1 as int].wrapping_add(imm)),
                _ => (0usize, 0u64),
            };
            &&& r is Ok
            &&& b2 == b
            &&& c2.regs == c.regs.update(rd as int, c.pc.wrapping_add(4))
            &&& c2.pc == target.wrapping_sub(4)
        }),
{
    reveal(exec_ok_spec);
}

/// Loads read `rs1 + imm` with the width of the instruction (8, 16, 32 or 64 bits) and write
/// the value to `rd`, sign-extended from that width for `lb`, `lh` and `lw` and as read (so
/// zero-extended) for `ld`, `lbu`, `lhu` and `lwu`; the program counter does not move.
pub proof fn lemma_loads(c: CpuState, b: BusState, inst: DecodedInstr)
    requires
        instr_wf(inst),
        inst is Lb || inst is Lh || inst is Lw || inst is Ld || inst is Lbu || inst is Lhu || inst is Lwu,
    ensures
        ({
            let c0 = CpuState { dest: REG_NUM, src1: REG_NUM, src2: REG_NUM, ..c };
            let (rd, rs1, imm, width) = match inst {
                DecodedInstr::Lb { rd, rs1, imm, .. } => (rd, rs1, imm, 8u64),
                DecodedInstr::Lh { rd, rs1, imm, .. } => (rd, rs1, imm, 16u64),
                DecodedInstr::Lw { rd, rs1, imm, .. } => (rd, rs1, imm, 32u64),
                DecodedInstr::Ld { rd, rs1, imm, .. } => (rd, rs1, imm, 64u64),
                DecodedInstr::Lbu { rd, rs1, imm, .. } => (rd, rs1, imm, 8u64),
                DecodedInstr::Lhu { rd, rs1, imm, .. } => (rd, rs1, imm, 16u64),
                DecodedInstr::Lwu { rd, rs1, imm, .. } => (rd, rs1, imm, 32u64),
                _ => (0usize, 0usize, 0u64, 0u64),
            };
            let (lr, c1, b1) = cpu_load_spec(c0, b, c.regs[rs1 as int].wrapping_add(imm), width);
            let (r, c2, b2) = exec_spec(c, b, inst);
            &&& b2 == b1
            &&& lr matches Ok(v) ==> {
                let e: u64 = match inst {
                    DecodedInstr::Lb { .. } => v as i8 as i64 as u64,
                    DecodedInstr::Lh { .. } => v as i16 as i64 as u64,
                    DecodedInstr::Lw { .. } => v as i32 as i64 as u64,
                    _ => v,
                };
                &&& r is Ok
                &&& c2.regs == c1.regs.update(rd as int, e)
                &&& c2.pc == c.pc
            }
            &&& lr matches Err(e) ==> r == Err::<(), Exception>(e)
        }),
{
    reveal(exec_ok_spec);
    let c0 = CpuState { dest: REG_NUM, src1: REG_NUM, src2: REG_NUM, ..c };
    let (rd, rs1, imm) = match inst {
        DecodedInstr::Lb { rd, rs1, imm, .. } | DecodedInstr::Lh { rd, rs1, imm, .. }
        | DecodedInstr::Lw { rd, rs1, imm, .. } | DecodedInstr::Ld { rd, rs1, imm, .. }
        | DecodedInstr::Lbu { rd, rs1, imm, .. } | DecodedInstr::Lhu { rd, rs1, imm, .. }
        | DecodedInstr::Lwu { rd, rs1, imm, .. } => (rd, rs1, imm),
        _ => (0usize, 0usize, 0u64),
    };
    let (lr, c1, b1) = cpu_load_spec(c0, b, c.regs[rs1 as int].wrapping_add(imm), load_width(inst));
    lemma_access_frame(c0, b, c.regs[rs1 as int].wrapping_add(imm), load_width(inst), 0);
    assert(exec_spec(c, b, inst).2 == b1);
    if let Ok(v) = lr {
        assert(exec_spec(c, b, inst).1.regs == c1.regs.update(rd as int, load_extend(inst, v)));
        assert(c1.pc == c.pc);
    }
}


/// Stores write the low 8, 16, 32 or 64 bits (`sb`, `sh`, `sw`, `sd`) of `rs2` at
/// `rs1 + imm`; the registers and the program counter stay as they are.
pub proof fn lemma_stores(c: CpuState, b: BusState, inst: DecodedInstr)
    requires
        instr_wf(inst),
        inst is Sb || inst is Sh || inst is Sw || inst is Sd,
    ensures
        ({
            let c0 = CpuState { dest: REG_NUM, src1: REG_NUM, src2: REG_NUM, ..c };
            let (rs1, rs2, imm, width) = match inst {
                DecodedInstr::Sb { rs1, rs2, imm, .. } => (rs1, rs2, imm, 8u64),
                DecodedInstr::Sh { rs1, rs2, imm, .. } => (rs1, rs2, imm, 16u64),
                DecodedInstr::Sw { rs1, rs2, imm, .. } => (rs1, rs2, imm, 32u64),
                DecodedInstr::Sd { rs1, rs2, imm, .. } => (rs1, rs2, imm, 64u64),
                _ => (0usize, 0usize, 0u64, 0u64),
            };
            let (sr, c1, b1) = cpu_store_spec(
                c0,
                b,
                c.regs[rs1 as int].wrapping_add(imm as i32 as i64 as u64),
                width,
                c.regs[rs2 as int],
            );
            let (r, c2, b2) = exec_spec(c, b, inst);
            &&& r == sr
            &&& b2 == b1
            &&& c2.regs == c.regs
            &&& c2.pc == c.pc
        }),
{
    reveal(exec_ok_spec);
    let c0 = CpuState { dest: REG_NUM, src1: REG_NUM, src2: REG_NUM, ..c };
    let (rs1, rs2, imm) = match inst {
        DecodedInstr::Sb { rs1, rs2, imm, .. } | DecodedInstr::Sh { rs1, rs2, imm, .. }
        | DecodedInstr::Sw { rs1, rs2, imm, .. } | DecodedInstr::Sd { rs1, rs2, imm, .. } => (rs1, rs2, imm),
        _ => (0usize, 0usize, 0u64),
    };
    lemma_access_frame(c0, b, c.regs[rs1 as int].wrapping_add(imm as i32 as i64 as u64), store_width(inst), c.regs[rs2 as int]);
}

/// `lui` writes its immediate to `rd`, and `auipc` the immediate added to the address of the
/// instruction; neither moves the program counter.
pub proof fn lemma_upper_immediates(c: CpuState, b: BusState, inst: DecodedInstr)
    requires
        instr_wf(inst),
        inst is Lui || inst is Auipc,
    ensures
        ({
            let (r, c2, b2) = exec_spec(c, b, inst);
            let (rd, v) = match inst {
                DecodedInstr::Lui { rd, imm, .. } => (rd, imm),
                DecodedInstr::Auipc { rd, imm, .. } => (rd, c.pc.wrapping_add(imm)),
                _ => (0usize, 0u64),
            };
            &&& r is Ok
            &&& b2 == b
            &&& c2.regs == c.regs.update(rd as int, v)
            &&& c2.pc == c.pc
        }),
{
    reveal(exec_ok_spec);
}

/// CSR instructions read the old value of the CSR into `rd` (`csrrw`/`csrrwi` skip the read
/// when `rd` is x0) and write the CSR: `csrrw` with `rs1`, `csrrs` with the old value with the
/// bits of `rs1` set, `csrrc` with them cleared (the immediate forms use the 5-bit immediate
/// instead of `rs1`); `csrrs`/`csrrc` and their immediate forms leave the CSR alone when the
/// source field is zero. The source is read before `rd` is written.
pub proof fn lemma_csr_instructions(c: CpuState, b: BusState, inst: DecodedInstr)
    requires
        instr_wf(inst),
        inst is Csrrw || inst is Csrrs || inst is Csrrc || inst is Csrrwi || inst is Csrrsi || inst is Csrrci,
    ensures
        ({
            let (r, c2, b2) = exec_spec(c, b, inst);
            let (rd, rs1, csr) = match inst {
                DecodedInstr::Csrrw { rd, rs1, csr, .. } => (rd, rs1, csr),
                DecodedInstr::Csrrs { rd, rs1, csr, .. } => (rd, rs1, csr),
                DecodedInstr::Csrrc { rd, rs1, csr, .. } => (rd, rs1, csr),
                DecodedInstr::Csrrwi { rd, rs1, csr, .. } => (rd, rs1, csr),
                DecodedInstr::Csrrsi { rd, rs1, csr, .. } => (rd, rs1, csr),
                DecodedInstr::Csrrci { rd, rs1, csr, .. } => (rd, rs1, csr),
                _ => (0usize, 0usize, 0usize),
            };
            let src: u64 = match inst {
                DecodedInstr::Csrrwi { uimm, .. } => uimm as u64,
                DecodedInstr::Csrrsi { uimm, .. } => uimm as u64,
                DecodedInstr::Csrrci { uimm, .. } => uimm as u64,
                _ => c.regs[rs1 as int],
            };
            let old = csr_read(c.csr, csr as int, c.cycle);
            let writes = inst is Csrrw || inst is Csrrwi || rs1 != 0;
            let new: u64 = if inst is Csrrw || inst is Csrrwi {
                src
            } else if inst is Csrrs || inst is Csrrsi {
                src | old
            } else {
                old & !src
            };
            let reads = !(inst is Csrrw || inst is Csrrwi) || rd != 0;
            &&& r is Ok
            &&& b2 == b
            &&& c2.regs == if reads { c.regs.update(rd as int, old) } else { c.regs }
            &&& c2.csr == if writes { csr_write(c.csr, csr as int, new) } else { c.csr }
            &&& c2.pc == c.pc
        }),
{
    reveal(exec_ok_spec);
}

/// Atomic memory operations: `rd` receives the old memory value (sign-extended from 32 bits
/// for the word forms) and memory receives: `rs2` for `amoswap`, the sum, xor, and or `or`
/// of the old value and `rs2` for `amoadd`, `amoxor`, `amoand`, `amoor`; for `amomin`/`amomax`
/// the smaller/larger of the two in signed order and for `amominu`/`amomaxu` in unsigned
/// order, comparing words for the word forms and doublewords for the doubleword forms.
pub proof fn lemma_amo_values(inst: DecodedInstr, val: u64, src: u64)
    requires
        inst is Amoswap || inst is Amoadd || inst is Amoxor || inst is Amoand || inst is Amoor
            || inst is Amomin || inst is Amomax || inst is Amominu || inst is Amomaxu,
    ensures
        ({
            let (to_rd, st) = amo_values(inst, val, src);
            let d = amo_is_double(inst);
            &&& to_rd == if d { val } else { val as u32 as i32 as i64 as u64 }
            &&& inst is Amoswap ==> st == src
            &&& inst is Amoadd ==> st == val.wrapping_add(src)
            &&& inst is Amoxor ==> st == val ^ src
            &&& inst is Amoand ==> st == val & src
            &&& inst is Amoor ==> st == val | src
            &&& (inst is Amomin || inst is Amomax || inst is Amominu || inst is Amomaxu) ==> (st
                == val || st == src)
            &&& inst is Amomin && d ==> (st as i64) <= (val as i64) && (st as i64) <= (src as i64)
            &&& inst is Amomax && d ==> (st as i64) >= (val as i64) && (st as i64) >= (src as i64)
            &&& inst is Amominu && d ==> st <= val && st <= src
            &&& inst is Amomaxu && d ==> st >= val && st >= src
            &&& inst is Amomin && !d ==> (st as u32 as i32) <= (val as u32 as i32) && (st as u32
                as i32) <= (src as u32 as i32)
            &&& inst is Amomax && !d ==> (st as u32 as i32) >= (val as u32 as i32) && (st as u32
                as i32) >= (src as u32 as i32)
            &&& inst is Amominu && !d ==> (st as u32) <= (val as u32) && (st as u32) <= (src as u32)
            &&& inst is Amomaxu && !d ==> (st as u32) >= (val as u32) && (st as u32) >= (src as u32)
        }),
{
    reveal(amo_values);
}


/// Shifts by an immediate and the word immediate forms: `srli` shifts logically and `srai`
/// (bit 10 of the immediate set) arithmetically by the low six bits of the immediate;
/// `addiw` adds the immediate to the low word, and `slliw`, `srliw`, `sraiw` shift the low
/// word (left, logically right, arithmetically right), all sign-extending the 32-bit result.
pub proof fn lemma_immediate_shifts(c: CpuState, b: BusState, inst: DecodedInstr)
    requires
        instr_wf(inst),
        inst is Srli || inst is Addiw || inst is Slliw || inst is Srliw || inst is Sraiw,
    ensures
        ({
            let (r, c2, b2) = exec_spec(c, b, inst);
            let (rd, v): (usize, u64) = match inst {
                DecodedInstr::Srli { rd, rs1, imm, .. } => (
                    rd,
                    if (imm >> 10u64) & 1 == 0 {
                        c.regs[rs1 as int] >> (imm & 0x3f)
                    } else {
                        ((c.regs[rs1 as int] as i64) >> (imm & 0x3f)) as u64
                    },
                ),
                DecodedInstr::Addiw { rd, rs1, imm, .. } => (
                    rd,
                    (c.regs[rs1 as int] as i32).wrapping_add(imm) as i64 as u64,
                ),
                DecodedInstr::Slliw { rd, rs1, shamt, .. } => (
                    rd,
                    ((c.regs[rs1 as int] as u32) << shamt) as i32 as i64 as u64,
                ),
                DecodedInstr::Srliw { rd, rs1, shamt, .. } => (
                    rd,
                    ((c.regs[rs1 as int] as u32) >> shamt) as i32 as i64 as u64,
                ),
                DecodedInstr::Sraiw { rd, rs1, shamt, .. } => (
                    rd,
                    ((c.regs[rs1 as int] as i32) >> shamt) as i64 as u64,
                ),
                _ => (0usize, 0u64),
            };
            &&& r is Ok
            &&& b2 == b
            &&& c2.regs == c.regs.update(rd as int, v)
            &&& c2.pc == c.pc
        }),
{
    reveal(exec_ok_spec);
}

} // verus!
