use vstd::prelude::*;

verus! {

/// A decoded RV64IMA instruction (with the privileged and Zicsr instructions). Every variant
/// keeps the raw instruction word.
#[derive(Clone, Copy, Debug, PartialEq, Eq, Structural)]
pub enum DecodedInstr {
    Add { raw: u32, rd: usize, rs1: usize, rs2: usize },
    Sub { raw: u32, rd: usize, rs1: usize, rs2: usize },
    Sll { raw: u32, rd: usize, rs1: usize, rs2: usize },
    Slt { raw: u32, rd: usize, rs1: usize, rs2: usize },
    Sltu { raw: u32, rd: usize, rs1: usize, rs2: usize },
    Xor { raw: u32, rd: usize, rs1: usize, rs2: usize },
    Srl { raw: u32, rd: usize, rs1: usize, rs2: usize },
    Sra { raw: u32, rd: usize, rs1: usize, rs2: usize },
    Or { raw: u32, rd: usize, rs1: usize, rs2: usize },
    And { raw: u32, rd: usize, rs1: usize, rs2: usize },
    Mul { raw: u32, rd: usize, rs1: usize, rs2: usize },
    Mulh { raw: u32, rd: usize, rs1: usize, rs2: usize },
    Mulhsu { raw: u32, rd: usize, rs1: usize, rs2: usize },
    Mulhu { raw: u32, rd: usize, rs1: usize, rs2: usize },
    Div { raw: u32, rd: usize, rs1: usize, rs2: usize },
    Divu { raw: u32, rd: usize, rs1: usize, rs2: usize },
    Rem { raw: u32, rd: usize, rs1: usize, rs2: usize },
    Remu { raw: u32, rd: usize, rs1: usize, rs2: usize },
    Addi { raw: u32, rd: usize, rs1: usize, imm: u64 },
    Slti { raw: u32, rd: usize, rs1: usize, imm: u64 },
    Sltiu { raw: u32, rd: usize, rs1: usize, imm: u64 },
    Xori { raw: u32, rd: usize, rs1: usize, imm: u64 },
    Ori { raw: u32, rd: usize, rs1: usize, imm: u64 },
    Andi { raw: u32, rd: usize, rs1: usize, imm: u64 },
    Slli { raw: u32, rd: usize, rs1: usize, imm: u64 },
    Srli { raw: u32, rd: usize, rs1: usize, imm: u64 },
    Lb { raw: u32, rd: usize, rs1: usize, imm: u64 },
    Lh { raw: u32, rd: usize, rs1: usize, imm: u64 },
    Lw { raw: u32, rd: usize, rs1: usize, imm: u64 },
    Ld { raw: u32, rd: usize, rs1: usize, imm: u64 },
    Lbu { raw: u32, rd: usize, rs1: usize, imm: u64 },
    Lhu { raw: u32, rd: usize, rs1: usize, imm: u64 },
    Lwu { raw: u32, rd: usize, rs1: usize, imm: u64 },
    Sb { raw: u32, rs1: usize, rs2: usize, imm: u64 },
    Sh { raw: u32, rs1: usize, rs2: usize, imm: u64 },
    Sw { raw: u32, rs1: usize, rs2: usize, imm: u64 },
    Sd { raw: u32, rs1: usize, rs2: usize, imm: u64 },
    Jal { raw: u32, rd: usize, imm: u64 },
    Jalr { raw: u32, rd: usize, rs1: usize, imm: u64 },
    Addiw { raw: u32, rd: usize, rs1: usize, imm: i32 },
    Slliw { raw: u32, rd: usize, rs1: usize, shamt: u32 },
    Srliw { raw: u32, rd: usize, rs1: usize, shamt: u32 },
    Sraiw { raw: u32, rd: usize, rs1: usize, shamt: u32 },
    Beq { raw: u32, rs1: usize, rs2: usize, imm: u64 },
    Bne { raw: u32, rs1: usize, rs2: usize, imm: u64 },
    Blt { raw: u32, rs1: usize, rs2: usize, imm: u64 },
    Bge { raw: u32, rs1: usize, rs2: usize, imm: u64 },
    Bltu { raw: u32, rs1: usize, rs2: usize, imm: u64 },
    Bgeu { raw: u32, rs1: usize, rs2: usize, imm: u64 },
    Addw { raw: u32, rd: usize, rs1: usize, rs2: usize },
    Subw { raw: u32, rd: usize, rs1: usize, rs2: usize },
    Sllw { raw: u32, rd: usize, rs1: usize, rs2: usize },
    Srlw { raw: u32, rd: usize, rs1: usize, rs2: usize },
    Sraw { raw: u32, rd: usize, rs1: usize, rs2: usize },
    Mulw { raw: u32, rd: usize, rs1: usize, rs2: usize },
    Divw { raw: u32, rd: usize, rs1: usize, rs2: usize },
    Divuw { raw: u32, rd: usize, rs1: usize, rs2: usize },
    Remw { raw: u32, rd: usize, rs1: usize, rs2: usize },
    Remuw { raw: u32, rd: usize, rs1: usize, rs2: usize },
    Lui { raw: u32, rd: usize, imm: u64 },
    Auipc { raw: u32, rd: usize, imm: u64 },
    Ecall { raw: u32 },
    Ebreak { raw: u32 },
    Sret { raw: u32 },
    Wfi { raw: u32 },
    Mret { raw: u32 },
    Csrrw { raw: u32, rd: usize, rs1: usize, csr: usize },
    Csrrs { raw: u32, rd: usize, rs1: usize, csr: usize },
    Csrrc { raw: u32, rd: usize, rs1: usize, csr: usize },
    Csrrwi { raw: u32, rd: usize, rs1: usize, csr: usize, uimm: u32 },
    Csrrsi { raw: u32, rd: usize, rs1: usize, csr: usize, uimm: u32 },
    Csrrci { raw: u32, rd: usize, rs1: usize, csr: usize, uimm: u32 },
    Sfence { raw: u32 },
    Fence { raw: u32 },
    Amoswap { raw: u32, rd: usize, rs1: usize, rs2: usize },
    Amoadd { raw: u32, rd: usize, rs1: usize, rs2: usize },
    Amoxor { raw: u32, rd: usize, rs1: usize, rs2: usize },
    Amoand { raw: u32, rd: usize, rs1: usize, rs2: usize },
    Amoor { raw: u32, rd: usize, rs1: usize, rs2: usize },
    Amomin { raw: u32, rd: usize, rs1: usize, rs2: usize },
    Amomax { raw: u32, rd: usize, rs1: usize, rs2: usize },
    Amominu { raw: u32, rd: usize, rs1: usize, rs2: usize },
    Amomaxu { raw: u32, rd: usize, rs1: usize, rs2: usize },
    IllegalInstruction { inst: u32 },
}

/// The opcode field, bits 6..0.
pub open spec fn opcode_of(inst: u32) -> u32 {
    inst & 0x7f
}

/// The destination register field, bits 11..7.
pub open spec fn rd_of(inst: u32) -> usize {
    ((inst >> 7u32) & 0x1f) as usize
}

/// The first source register field, bits 19..15.
pub open spec fn rs1_of(inst: u32) -> usize {
    ((inst >> 15u32) & 0x1f) as usize
}

/// The second source register field, bits 24..20.
pub open spec fn rs2_of(inst: u32) -> usize {
    ((inst >> 20u32) & 0x1f) as usize
}

/// The funct3 field, bits 14..12.
pub open spec fn funct3_of(inst: u32) -> usize {
    ((inst >> 12u32) & 0x7) as usize
}

/// The funct7 field, bits 31..25.
pub open spec fn funct7_of(inst: u32) -> usize {
    ((inst >> 25u32) & 0x7f) as usize
}

/// `v` sign-extended from 12 bits.
pub open spec fn sext12(v: u64) -> u64 {
    if v & 0x800 != 0 { v | 0xffff_ffff_ffff_f000 } else { v }
}

/// `v` sign-extended from 13 bits.
pub open spec fn sext13(v: u64) -> u64 {
    if v & 0x1000 != 0 { v | 0xffff_ffff_ffff_e000 } else { v }
}

/// `v` sign-extended from 21 bits.
pub open spec fn sext21(v: u64) -> u64 {
    if v & 0x10_0000 != 0 { v | 0xffff_ffff_ffe0_0000 } else { v }
}

/// `v` sign-extended from 32 bits.
pub open spec fn sext32(v: u64) -> u64 {
    if v & 0x8000_0000 != 0 { v | 0xffff_ffff_0000_0000 } else { v }
}

/// The I-type immediate: bits 31..20, sign-extended.
pub open spec fn imm_i(inst: u32) -> u64 {
    sext12((inst >> 20u32) as u64)
}

/// The S-type immediate: bits 31..25 and 11..7, sign-extended.
pub open spec fn imm_s(inst: u32) -> u64 {
    sext12(((((inst >> 25u32) & 0x7f) << 5u32) | ((inst >> 7u32) & 0x1f)) as u64)
}

/// The B-type immediate: imm[12|10:5] in bits 31..25, imm[4:1|11] in bits 11..7, sign-extended.
pub open spec fn imm_b(inst: u32) -> u64 {
    sext13(
        ((((inst >> 31u32) & 1) << 12u32) | (((inst >> 7u32) & 1) << 11u32) | (((inst >> 25u32)
            & 0x3f) << 5u32) | (((inst >> 8u32) & 0xf) << 1u32)) as u64,
    )
}

/// The J-type immediate: imm[20|10:1|11|19:12] in bits 31..12, sign-extended.
pub open spec fn imm_j(inst: u32) -> u64 {
    sext21(
        ((((inst >> 31u32) & 1) << 20u32) | (((inst >> 12u32) & 0xff) << 12u32) | (((inst
            >> 20u32) & 1) << 11u32) | (((inst >> 21u32) & 0x3ff) << 1u32)) as u64,
    )
}

/// The U-type immediate: bits 31..12 in place, sign-extended from bit 31.
pub open spec fn imm_u(inst: u32) -> u64 {
    sext32((inst & 0xffff_f000) as u64)
}

/// The 5-bit shift amount of the word shifts, bits 24..20.
pub open spec fn shamt_of(inst: u32) -> u32 {
    (inst >> 20u32) & 0x1f
}

/// The CSR number, bits 31..20.
pub open spec fn csr_of(inst: u32) -> usize {
    (inst >> 20u32) as usize
}

/// The 5-bit immediate of the CSR immediate forms, bits 19..15.
pub open spec fn uimm_of(inst: u32) -> u32 {
    (inst & 0xf8000) >> 15u32
}

/// The instruction that the word `inst` encodes; words outside the supported encodings
/// decode to `IllegalInstruction`. Atomic memory operations are told apart by funct5 (bits
/// 31..27), on words (funct3 2) or doublewords (funct3 3).
pub open spec fn decode_spec(inst: u32) -> DecodedInstr {
    let opcode = opcode_of(inst);
    let rd = rd_of(inst);
    let rs1 = rs1_of(inst);
    let rs2 = rs2_of(inst);
    let funct3 = funct3_of(inst);
    let funct7 = funct7_of(inst);
    let raw = inst;
    if opcode == 0x33 {
        match (funct3, funct7) {
            (0x0, 0x0) => DecodedInstr::Add { raw, rd, rs1, rs2 },
            (0x0, 0x20) => DecodedInstr::Sub { raw, rd, rs1, rs2 },
            (0x1, 0x0) => DecodedInstr::Sll { raw, rd, rs1, rs2 },
            (0x2, 0x0) => DecodedInstr::Slt { raw, rd, rs1, rs2 },
            (0x3, 0x0) => DecodedInstr::Sltu { raw, rd, rs1, rs2 },
            (0x4, 0x0) => DecodedInstr::Xor { raw, rd, rs1, rs2 },
            (0x5, 0x0) => DecodedInstr::Srl { raw, rd, rs1, rs2 },
            (0x5, 0x20) => DecodedInstr::Sra { raw, rd, rs1, rs2 },
            (0x6, 0x0) => DecodedInstr::Or { raw, rd, rs1, rs2 },
            (0x7, 0x0) => DecodedInstr::And { raw, rd, rs1, rs2 },
            (0x0, 0x1) => DecodedInstr::Mul { raw, rd, rs1, rs2 },
            (0x1, 0x1) => DecodedInstr::Mulh { raw, rd, rs1, rs2 },
            (0x2, 0x1) => DecodedInstr::Mulhsu { raw, rd, rs1, rs2 },
            (0x3, 0x1) => DecodedInstr::Mulhu { raw, rd, rs1, rs2 },
            (0x4, 0x1) => DecodedInstr::Div { raw, rd, rs1, rs2 },
            (0x5, 0x1) => DecodedInstr::Divu { raw, rd, rs1, rs2 },
            (0x6, 0x1) => DecodedInstr::Rem { raw, rd, rs1, rs2 },
            (0x7, 0x1) => DecodedInstr::Remu { raw, rd, rs1, rs2 },
            _ => DecodedInstr::IllegalInstruction { inst },
        }
    } else if opcode == 0x13 {
        let imm = imm_i(inst);
        match funct3 {
            0x0 => DecodedInstr::Addi { raw, rd, rs1, imm },
            0x2 => DecodedInstr::Slti { raw, rd, rs1, imm },
            0x3 => DecodedInstr::Sltiu { raw, rd, rs1, imm },
            0x4 => DecodedInstr::Xori { raw, rd, rs1, imm },
            0x6 => DecodedInstr::Ori { raw, rd, rs1, imm },
            0x7 => DecodedInstr::Andi { raw, rd, rs1, imm },
            0x1 => DecodedInstr::Slli { raw, rd, rs1, imm },
            0x5 => DecodedInstr::Srli { raw, rd, rs1, imm },
            _ => DecodedInstr::IllegalInstruction { inst },
        }
    } else if opcode == 0x03 {
        let imm = imm_i(inst);
        match funct3 {
            0x0 => DecodedInstr::Lb { raw, rd, rs1, imm },
            0x1 => DecodedInstr::Lh { raw, rd, rs1, imm },
            0x2 => DecodedInstr::Lw { raw, rd, rs1, imm },
            0x3 => DecodedInstr::Ld { raw, rd, rs1, imm },
            0x4 => DecodedInstr::Lbu { raw, rd, rs1, imm },
            0x5 => DecodedInstr::Lhu { raw, rd, rs1, imm },
            0x6 => DecodedInstr::Lwu { raw, rd, rs1, imm },
            _ => DecodedInstr::IllegalInstruction { inst },
        }
    } else if opcode == 0x23 {
        let imm = imm_s(inst);
        match funct3 {
            0x0 => DecodedInstr::Sb { raw, rs1, rs2, imm },
            0x1 => DecodedInstr::Sh { raw, rs1, rs2, imm },
            0x2 => DecodedInstr::Sw { raw, rs1, rs2, imm },
            0x3 => DecodedInstr::Sd { raw, rs1, rs2, imm },
            _ => DecodedInstr::IllegalInstruction { inst },
        }
    } else if opcode == 0x6f {
        DecodedInstr::Jal { raw, rd, imm: imm_j(inst) }
    } else if opcode == 0x67 {
        if funct3 == 0 {
            DecodedInstr::Jalr { raw, rd, rs1, imm: imm_i(inst) }
        } else {
            DecodedInstr::IllegalInstruction { inst }
        }
    } else if opcode == 0x1b {
        match (funct3, funct7) {
            (0x0, _) => DecodedInstr::Addiw { raw, rd, rs1, imm: imm_i(inst) as i32 },
            (0x1, 0x0) => DecodedInstr::Slliw { raw, rd, rs1, shamt: shamt_of(inst) },
            (0x5, 0x0) => DecodedInstr::Srliw { raw, rd, rs1, shamt: shamt_of(inst) },
            (0x5, 0x20) => DecodedInstr::Sraiw { raw, rd, rs1, shamt: shamt_of(inst) },
            _ => DecodedInstr::IllegalInstruction { inst },
        }
    } else if opcode == 0x63 {
        let imm = imm_b(inst);
        match funct3 {
            0x0 => DecodedInstr::Beq { raw, rs1, rs2, imm },
            0x1 => DecodedInstr::Bne { raw, rs1, rs2, imm },
            0x4 => DecodedInstr::Blt { raw, rs1, rs2, imm },
            0x5 => DecodedInstr::Bge { raw, rs1, rs2, imm },
            0x6 => DecodedInstr::Bltu { raw, rs1, rs2, imm },
            0x7 => DecodedInstr::Bgeu { raw, rs1, rs2, imm },
            _ => DecodedInstr::IllegalInstruction { inst },
        }
    } else if opcode == 0x3b {
        match (funct3, funct7) {
            (0x0, 0x0) => DecodedInstr::Addw { raw, rd, rs1, rs2 },
            (0x0, 0x20) => DecodedInstr::Subw { raw, rd, rs1, rs2 },
            (0x1, 0x0) => DecodedInstr::Sllw { raw, rd, rs1, rs2 },
            (0x5, 0x0) => DecodedInstr::Srlw { raw, rd, rs1, rs2 },
            (0x5, 0x20) => DecodedInstr::Sraw { raw, rd, rs1, rs2 },
            (0x0, 0x1) => DecodedInstr::Mulw { raw, rd, rs1, rs2 },
            (0x4, 0x1) => DecodedInstr::Divw { raw, rd, rs1, rs2 },
            (0x5, 0x1) => DecodedInstr::Divuw { raw, rd, rs1, rs2 },
            (0x6, 0x1) => DecodedInstr::Remw { raw, rd, rs1, rs2 },
            (0x7, 0x1) => DecodedInstr::Remuw { raw, rd, rs1, rs2 },
            _ => DecodedInstr::IllegalInstruction { inst },
        }
    } else if opcode == 0x37 {
        DecodedInstr::Lui { raw, rd, imm: imm_u(inst) }
    } else if opcode == 0x17 {
        DecodedInstr::Auipc { raw, rd, imm: imm_u(inst) }
    } else if opcode == 0x73 {
        let csr = csr_of(inst);
        let uimm = uimm_of(inst);
        match (funct3, funct7, rs2) {
            (0x0, 0x0, 0x0) => DecodedInstr::Ecall { raw },
            (0x0, 0x0, 0x1) => DecodedInstr::Ebreak { raw },
            (0x0, 0x8, 0x2) => DecodedInstr::Sret { raw },
            (0x0, 0x8, 0x5) => DecodedInstr::Wfi { raw },
            (0x0, 0x18, 0x2) => DecodedInstr::Mret { raw },
            (0x1, _, _) => DecodedInstr::Csrrw { raw, rd, rs1, csr },
            (0x2, _, _) => DecodedInstr::Csrrs { raw, rd, rs1, csr },
            (0x3, _, _) => DecodedInstr::Csrrc { raw, rd, rs1, csr },
            (0x5, _, _) => DecodedInstr::Csrrwi { raw, rd, rs1, csr, uimm },
            (0x6, _, _) => DecodedInstr::Csrrsi { raw, rd, rs1, csr, uimm },
            (0x7, _, _) => DecodedInstr::Csrrci { raw, rd, rs1, csr, uimm },
            (0x0, 0x9, _) => DecodedInstr::Sfence { raw },
            _ => DecodedInstr::IllegalInstruction { inst },
        }
    } else if opcode == 0x0f {
        DecodedInstr::Fence { raw }
    } else if opcode == 0x2f {
        match (funct7 >> 2usize, funct3) {
            (0x1, 0x2) | (0x1, 0x3) => DecodedInstr::Amoswap { raw, rd, rs1, rs2 },
            (0x0, 0x2) | (0x0, 0x3) => DecodedInstr::Amoadd { raw, rd, rs1, rs2 },
            (0x4, 0x2) | (0x4, 0x3) => DecodedInstr::Amoxor { raw, rd, rs1, rs2 },
            (0xc, 0x2) | (0xc, 0x3) => DecodedInstr::Amoand { raw, rd, rs1, rs2 },
            (0x8, 0x2) | (0x8, 0x3) => DecodedInstr::Amoor { raw, rd, rs1, rs2 },
            (0x10, 0x2) | (0x10, 0x3) => DecodedInstr::Amomin { raw, rd, rs1, rs2 },
            (0x14, 0x2) | (0x14, 0x3) => DecodedInstr::Amomax { raw, rd, rs1, rs2 },
            (0x18, 0x2) | (0x18, 0x3) => DecodedInstr::Amominu { raw, rd, rs1, rs2 },
            (0x1c, 0x2) | (0x1c, 0x3) => DecodedInstr::Amomaxu { raw, rd, rs1, rs2 },
            _ => DecodedInstr::IllegalInstruction { inst },
        }
    } else {
        DecodedInstr::IllegalInstruction { inst }
    }
}

/// Conditional branches.
pub open spec fn is_branch_spec(i: DecodedInstr) -> bool {
    ||| i is Beq
    ||| i is Bne
    ||| i is Blt
    ||| i is Bge
    ||| i is Bltu
    ||| i is Bgeu
}

/// Jumps and the instructions that leave the sequential flow (calls, returns, waits).
pub open spec fn is_jump_spec(i: DecodedInstr) -> bool {
    ||| i is Jal
    ||| i is Jalr
    ||| i is Ecall
    ||| i is Ebreak
    ||| i is Sret
    ||| i is Wfi
    ||| i is Mret
}

/// Instructions after which a basic block ends.
pub open spec fn ends_block_spec(i: DecodedInstr) -> bool {
    is_branch_spec(i) || is_jump_spec(i) || i is IllegalInstruction
}

fn imm_i_exec(inst: u32) -> (r: u64)
    ensures
        r == imm_i(inst),
{
    let v = (inst >> 20u32) as u64;
    if v & 0x800 != 0 {
        v | 0xffff_ffff_ffff_f000
    } else {
        v
    }
}

fn imm_s_exec(inst: u32) -> (r: u64)
    ensures
        r == imm_s(inst),
{
    let v = ((((inst >> 25u32) & 0x7f) << 5u32) | ((inst >> 7u32) & 0x1f)) as u64;
    if v & 0x800 != 0 {
        v | 0xffff_ffff_ffff_f000
    } else {
        v
    }
}

fn imm_b_exec(inst: u32) -> (r: u64)
    ensures
        r == imm_b(inst),
{
    let v = ((((inst >> 31u32) & 1) << 12u32) | (((inst >> 7u32) & 1) << 11u32) | (((inst
        >> 25u32) & 0x3f) << 5u32) | (((inst >> 8u32) & 0xf) << 1u32)) as u64;
    if v & 0x1000 != 0 {
        v | 0xffff_ffff_ffff_e000
    } else {
        v
    }
}

fn imm_j_exec(inst: u32) -> (r: u64)
    ensures
        r == imm_j(inst),
{
    let v = ((((inst >> 31u32) & 1) << 20u32) | (((inst >> 12u32) & 0xff) << 12u32) | (((inst
        >> 20u32) & 1) << 11u32) | (((inst >> 21u32) & 0x3ff) << 1u32)) as u64;
    if v & 0x10_0000 != 0 {
        v | 0xffff_ffff_ffe0_0000
    } else {
        v
    }
}

fn imm_u_exec(inst: u32) -> (r: u64)
    ensures
        r == imm_u(inst),
{
    let v = (inst & 0xffff_f000) as u64;
    if v & 0x8000_0000 != 0 {
        v | 0xffff_ffff_0000_0000
    } else {
        v
    }
}

impl DecodedInstr {
    /// Decodes the instruction word `inst`.
    pub fn decode(inst: u32) -> (d: DecodedInstr)
        ensures
            d == decode_spec(inst),
            instr_wf(d),
    {
        proof {
            lemma_decode_wf(inst);
        }
        let opcode = inst & 0x7f;
        let rd = ((inst >> 7u32) & 0x1f) as usize;
        let rs1 = ((inst >> 15u32) & 0x1f) as usize;
        let rs2 = ((inst >> 20u32) & 0x1f) as usize;
        let funct3 = ((inst >> 12u32) & 0x7) as usize;
        let funct7 = ((inst >> 25u32) & 0x7f) as usize;
        let raw = inst;
        if opcode == 0x33 {
            match (funct3, funct7) {
                (0x0, 0x0) => DecodedInstr::Add { raw, rd, rs1, rs2 },
                (0x0, 0x20) => DecodedInstr::Sub { raw, rd, rs1, rs2 },
                (0x1, 0x0) => DecodedInstr::Sll { raw, rd, rs1, rs2 },
                (0x2, 0x0) => DecodedInstr::Slt { raw, rd, rs1, rs2 },
                (0x3, 0x0) => DecodedInstr::Sltu { raw, rd, rs1, rs2 },
                (0x4, 0x0) => DecodedInstr::Xor { raw, rd, rs1, rs2 },
                (0x5, 0x0) => DecodedInstr::Srl { raw, rd, rs1, rs2 },
                (0x5, 0x20) => DecodedInstr::Sra { raw, rd, rs1, rs2 },
                (0x6, 0x0) => DecodedInstr::Or { raw, rd, rs1, rs2 },
                (0x7, 0x0) => DecodedInstr::And { raw, rd, rs1, rs2 },
                (0x0, 0x1) => DecodedInstr::Mul { raw, rd, rs1, rs2 },
                (0x1, 0x1) => DecodedInstr::Mulh { raw, rd, rs1, rs2 },
                (0x2, 0x1) => DecodedInstr::Mulhsu { raw, rd, rs1, rs2 },
                (0x3, 0x1) => DecodedInstr::Mulhu { raw, rd, rs1, rs2 },
                (0x4, 0x1) => DecodedInstr::Div { raw, rd, rs1, rs2 },
                (0x5, 0x1) => DecodedInstr::Divu { raw, rd, rs1, rs2 },
                (0x6, 0x1) => DecodedInstr::Rem { raw, rd, rs1, rs2 },
                (0x7, 0x1) => DecodedInstr::Remu { raw, rd, rs1, rs2 },
                _ => DecodedInstr::IllegalInstruction { inst },
            }
        } else if opcode == 0x13 {
            let imm = imm_i_exec(inst);
            match funct3 {
                0x0 => DecodedInstr::Addi { raw, rd, rs1, imm },
                0x2 => DecodedInstr::Slti { raw, rd, rs1, imm },
                0x3 => DecodedInstr::Sltiu { raw, rd, rs1, imm },
                0x4 => DecodedInstr::Xori { raw, rd, rs1, imm },
                0x6 => DecodedInstr::Ori { raw, rd, rs1, imm },
                0x7 => DecodedInstr::Andi { raw, rd, rs1, imm },
                0x1 => DecodedInstr::Slli { raw, rd, rs1, imm },
                0x5 => DecodedInstr::Srli { raw, rd, rs1, imm },
                _ => DecodedInstr::IllegalInstruction { inst },
            }
        } else if opcode == 0x03 {
            let imm = imm_i_exec(inst);
            match funct3 {
                0x0 => DecodedInstr::Lb { raw, rd, rs1, imm },
                0x1 => DecodedInstr::Lh { raw, rd, rs1, imm },
                0x2 => DecodedInstr::Lw { raw, rd, rs1, imm },
                0x3 => DecodedInstr::Ld { raw, rd, rs1, imm },
                0x4 => DecodedInstr::Lbu { raw, rd, rs1, imm },
                0x5 => DecodedInstr::Lhu { raw, rd, rs1, imm },
                0x6 => DecodedInstr::Lwu { raw, rd, rs1, imm },
                _ => DecodedInstr::IllegalInstruction { inst },
            }
        } else if opcode == 0x23 {
            let imm = imm_s_exec(inst);
            match funct3 {
                0x0 => DecodedInstr::Sb { raw, rs1, rs2, imm },
                0x1 => DecodedInstr::Sh { raw, rs1, rs2, imm },
                0x2 => DecodedInstr::Sw { raw, rs1, rs2, imm },
                0x3 => DecodedInstr::Sd { raw, rs1, rs2, imm },
                _ => DecodedInstr::IllegalInstruction { inst },
            }
        } else if opcode == 0x6f {
            DecodedInstr::Jal { raw, rd, imm: imm_j_exec(inst) }
        } else if opcode == 0x67 {
            if funct3 == 0 {
                DecodedInstr::Jalr { raw, rd, rs1, imm: imm_i_exec(inst) }
            } else {
                DecodedInstr::IllegalInstruction { inst }
            }
        } else if opcode == 0x1b {
            let shamt = (inst >> 20u32) & 0x1f;
            match (funct3, funct7) {
                (0x0, _) => DecodedInstr::Addiw { raw, rd, rs1, imm: imm_i_exec(inst) as i32 },
                (0x1, 0x0) => DecodedInstr::Slliw { raw, rd, rs1, shamt },
                (0x5, 0x0) => DecodedInstr::Srliw { raw, rd, rs1, shamt },
                (0x5, 0x20) => DecodedInstr::Sraiw { raw, rd, rs1, shamt },
                _ => DecodedInstr::IllegalInstruction { inst },
            }
        } else if opcode == 0x63 {
            let imm = imm_b_exec(inst);
            match funct3 {
                0x0 => DecodedInstr::Beq { raw, rs1, rs2, imm },
                0x1 => DecodedInstr::Bne { raw, rs1, rs2, imm },
                0x4 => DecodedInstr::Blt { raw, rs1, rs2, imm },
                0x5 => DecodedInstr::Bge { raw, rs1, rs2, imm },
                0x6 => DecodedInstr::Bltu { raw, rs1, rs2, imm },
                0x7 => DecodedInstr::Bgeu { raw, rs1, rs2, imm },
                _ => DecodedInstr::IllegalInstruction { inst },
            }
        } else if opcode == 0x3b {
            match (funct3, funct7) {
                (0x0, 0x0) => DecodedInstr::Addw { raw, rd, rs1, rs2 },
                (0x0, 0x20) => DecodedInstr::Subw { raw, rd, rs1, rs2 },
                (0x1, 0x0) => DecodedInstr::Sllw { raw, rd, rs1, rs2 },
                (0x5, 0x0) => DecodedInstr::Srlw { raw, rd, rs1, rs2 },
                (0x5, 0x20) => DecodedInstr::Sraw { raw, rd, rs1, rs2 },
                (0x0, 0x1) => DecodedInstr::Mulw { raw, rd, rs1, rs2 },
                (0x4, 0x1) => DecodedInstr::Divw { raw, rd, rs1, rs2 },
                (0x5, 0x1) => DecodedInstr::Divuw { raw, rd, rs1, rs2 },
                (0x6, 0x1) => DecodedInstr::Remw { raw, rd, rs1, rs2 },
                (0x7, 0x1) => DecodedInstr::Remuw { raw, rd, rs1, rs2 },
                _ => DecodedInstr::IllegalInstruction { inst },
            }
        } else if opcode == 0x37 {
            DecodedInstr::Lui { raw, rd, imm: imm_u_exec(inst) }
        } else if opcode == 0x17 {
            DecodedInstr::Auipc { raw, rd, imm: imm_u_exec(inst) }
        } else if opcode == 0x73 {
            let csr = (inst >> 20u32) as usize;
            let uimm = (inst & 0xf8000) >> 15u32;
            match (funct3, funct7, rs2) {
                (0x0, 0x0, 0x0) => DecodedInstr::Ecall { raw },
                (0x0, 0x0, 0x1) => DecodedInstr::Ebreak { raw },
                (0x0, 0x8, 0x2) => DecodedInstr::Sret { raw },
                (0x0, 0x8, 0x5) => DecodedInstr::Wfi { raw },
                (0x0, 0x18, 0x2) => DecodedInstr::Mret { raw },
                (0x1, _, _) => DecodedInstr::Csrrw { raw, rd, rs1, csr },
                (0x2, _, _) => DecodedInstr::Csrrs { raw, rd, rs1, csr },
                (0x3, _, _) => DecodedInstr::Csrrc { raw, rd, rs1, csr },
                (0x5, _, _) => DecodedInstr::Csrrwi { raw, rd, rs1, csr, uimm },
                (0x6, _, _) => DecodedInstr::Csrrsi { raw, rd, rs1, csr, uimm },
                (0x7, _, _) => DecodedInstr::Csrrci { raw, rd, rs1, csr, uimm },
                (0x0, 0x9, _) => DecodedInstr::Sfence { raw },
                _ => DecodedInstr::IllegalInstruction { inst },
            }
        } else if opcode == 0x0f {
            DecodedInstr::Fence { raw }
        } else if opcode == 0x2f {
            let funct5 = funct7 >> 2usize;
            match (funct5, funct3) {
                (0x1, 0x2) | (0x1, 0x3) => DecodedInstr::Amoswap { raw, rd, rs1, rs2 },
                (0x0, 0x2) | (0x0, 0x3) => DecodedInstr::Amoadd { raw, rd, rs1, rs2 },
                (0x4, 0x2) | (0x4, 0x3) => DecodedInstr::Amoxor { raw, rd, rs1, rs2 },
                (0xc, 0x2) | (0xc, 0x3) => DecodedInstr::Amoand { raw, rd, rs1, rs2 },
                (0x8, 0x2) | (0x8, 0x3) => DecodedInstr::Amoor { raw, rd, rs1, rs2 },
                (0x10, 0x2) | (0x10, 0x3) => DecodedInstr::Amomin { raw, rd, rs1, rs2 },
                (0x14, 0x2) | (0x14, 0x3) => DecodedInstr::Amomax { raw, rd, rs1, rs2 },
                (0x18, 0x2) | (0x18, 0x3) => DecodedInstr::Amominu { raw, rd, rs1, rs2 },
                (0x1c, 0x2) | (0x1c, 0x3) => DecodedInstr::Amomaxu { raw, rd, rs1, rs2 },
                _ => DecodedInstr::IllegalInstruction { inst },
            }
        } else {
            DecodedInstr::IllegalInstruction { inst }
        }
    }

    /// Whether this is a conditional branch.
    pub fn is_branch(&self) -> (b: bool)
        ensures
            b == is_branch_spec(*self),
    {
        match self {
            DecodedInstr::Beq { .. } | DecodedInstr::Bne { .. } | DecodedInstr::Blt { .. }
            | DecodedInstr::Bge { .. } | DecodedInstr::Bltu { .. } | DecodedInstr::Bgeu {
                ..
            } => true,
            _ => false,
        }
    }

    /// Whether this is a jump, a call into the environment, a trap return or a wait.
    pub fn is_jump(&self) -> (b: bool)
        ensures
            b == is_jump_spec(*self),
    {
        match self {
            DecodedInstr::Jal { .. } | DecodedInstr::Jalr { .. } | DecodedInstr::Ecall { .. }
            | DecodedInstr::Ebreak { .. } | DecodedInstr::Sret { .. } | DecodedInstr::Wfi { .. }
            | DecodedInstr::Mret { .. } => true,
            _ => false,
        }
    }

    /// Whether a basic block ends with this instruction: branches, jumps and illegal words.
    pub fn is_building_block_end(&self) -> (b: bool)
        ensures
            b == ends_block_spec(*self),
    {
        self.is_branch() || self.is_jump() || matches!(self, DecodedInstr::IllegalInstruction { .. })
    }
}

/// A straight-line run of decoded instructions starting at `start_pc`; `end_pc` is the address
/// of its last instruction.
#[derive(Debug)]
pub struct BasicBlock {
    pub start_pc: u64,
    pub end_pc: u64,
    pub instrs: Vec<DecodedInstr>,
}

/// The contents of a basic block.
#[verifier::ext_equal]
pub struct BlockState {
    pub start_pc: u64,
    pub end_pc: u64,
    pub instrs: Seq<DecodedInstr>,
}

impl View for BasicBlock {
    type V = BlockState;

    open spec fn view(&self) -> BlockState {
        BlockState { start_pc: self.start_pc, end_pc: self.end_pc, instrs: self.instrs@ }
    }
}

impl BasicBlock {
    /// A copy of this block.
    pub fn duplicate(&self) -> (b: BasicBlock)
        ensures
            b@ == self@,
    {
        let mut instrs: Vec<DecodedInstr> = Vec::new();
        let mut i: usize = 0;
        while i < self.instrs.len()
            invariant
                i <= self.instrs@.len(),
                instrs@ == self.instrs@.subrange(0, i as int),
            decreases self.instrs@.len() - i,
        {
            instrs.push(self.instrs[i]);
            assert(instrs@ =~= self.instrs@.subrange(0, i + 1));
            i = i + 1;
        }
        assert(instrs@ =~= self.instrs@);
        BasicBlock { start_pc: self.start_pc, end_pc: self.end_pc, instrs }
    }
}

/// Register fields of decoded instructions name one of the 32 registers, CSR numbers one of
/// the 4096 CSRs, and the raw word is kept.
pub proof fn lemma_decode_fields_in_range(inst: u32)
    ensures
        match decode_spec(inst) {
            DecodedInstr::IllegalInstruction { inst: w } => w == inst,
            DecodedInstr::Csrrw { raw, rd, rs1, csr } | DecodedInstr::Csrrs { raw, rd, rs1, csr }
            | DecodedInstr::Csrrc { raw, rd, rs1, csr } => raw == inst && rd < 32 && rs1 < 32 && csr
                < 4096,
            DecodedInstr::Csrrwi { raw, rd, rs1, csr, uimm }
            | DecodedInstr::Csrrsi { raw, rd, rs1, csr, uimm }
            | DecodedInstr::Csrrci { raw, rd, rs1, csr, uimm } => raw == inst && rd < 32 && rs1 < 32
                && csr < 4096 && uimm < 32,
            _ => true,
        },
        rd_of(inst) < 32,
        rs1_of(inst) < 32,
        rs2_of(inst) < 32,
        csr_of(inst) < 4096,
        uimm_of(inst) < 32,
        shamt_of(inst) < 32,
{
    assert(((inst >> 7u32) & 0x1f) < 32) by (bit_vector);
    assert(((inst >> 15u32) & 0x1f) < 32) by (bit_vector);
    assert(((inst >> 20u32) & 0x1f) < 32) by (bit_vector);
    assert((inst >> 20u32) < 4096) by (bit_vector);
    assert((inst & 0xf8000) >> 15u32 < 32) by (bit_vector);
}

/// Every register field names one of the 32 registers, every CSR field one of the 4096 CSRs,
/// and every word-shift amount is below 32.
pub open spec fn instr_wf(i: DecodedInstr) -> bool {
    match i {
        DecodedInstr::Add { rd, rs1, rs2, .. } | DecodedInstr::Sub { rd, rs1, rs2, .. }
        | DecodedInstr::Sll { rd, rs1, rs2, .. } | DecodedInstr::Slt { rd, rs1, rs2, .. }
        | DecodedInstr::Sltu { rd, rs1, rs2, .. } | DecodedInstr::Xor { rd, rs1, rs2, .. }
        | DecodedInstr::Srl { rd, rs1, rs2, .. } | DecodedInstr::Sra { rd, rs1, rs2, .. }
        | DecodedInstr::Or { rd, rs1, rs2, .. } | DecodedInstr::And { rd, rs1, rs2, .. }
        | DecodedInstr::Mul { rd, rs1, rs2, .. } | DecodedInstr::Mulh { rd, rs1, rs2, .. }
        | DecodedInstr::Mulhsu { rd, rs1, rs2, .. } | DecodedInstr::Mulhu { rd, rs1, rs2, .. }
        | DecodedInstr::Div { rd, rs1, rs2, .. } | DecodedInstr::Divu { rd, rs1, rs2, .. }
        | DecodedInstr::Rem { rd, rs1, rs2, .. } | DecodedInstr::Remu { rd, rs1, rs2, .. }
        | DecodedInstr::Addw { rd, rs1, rs2, .. } | DecodedInstr::Subw { rd, rs1, rs2, .. }
        | DecodedInstr::Sllw { rd, rs1, rs2, .. } | DecodedInstr::Srlw { rd, rs1, rs2, .. }
        | DecodedInstr::Sraw { rd, rs1, rs2, .. } | DecodedInstr::Mulw { rd, rs1, rs2, .. }
        | DecodedInstr::Divw { rd, rs1, rs2, .. } | DecodedInstr::Divuw { rd, rs1, rs2, .. }
        | DecodedInstr::Remw { rd, rs1, rs2, .. } | DecodedInstr::Remuw { rd, rs1, rs2, .. }
        | DecodedInstr::Amoswap { rd, rs1, rs2, .. } | DecodedInstr::Amoadd { rd, rs1, rs2, .. }
        | DecodedInstr::Amoxor { rd, rs1, rs2, .. } | DecodedInstr::Amoand { rd, rs1, rs2, .. }
        | DecodedInstr::Amoor { rd, rs1, rs2, .. } | DecodedInstr::Amomin { rd, rs1, rs2, .. }
        | DecodedInstr::Amomax { rd, rs1, rs2, .. } | DecodedInstr::Amominu { rd, rs1, rs2, .. }
        | DecodedInstr::Amomaxu { rd, rs1, rs2, .. } => rd < 32 && rs1 < 32 && rs2 < 32,
        DecodedInstr::Addi { rd, rs1, .. } | DecodedInstr::Slti { rd, rs1, .. }
        | DecodedInstr::Sltiu { rd, rs1, .. } | DecodedInstr::Xori { rd, rs1, .. }
        | DecodedInstr::Ori { rd, rs1, .. } | DecodedInstr::Andi { rd, rs1, .. }
        | DecodedInstr::Slli { rd, rs1, .. } | DecodedInstr::Srli { rd, rs1, .. }
        | DecodedInstr::Lb { rd, rs1, .. } | DecodedInstr::Lh { rd, rs1, .. }
        | DecodedInstr::Lw { rd, rs1, .. } | DecodedInstr::Ld { rd, rs1, .. }
        | DecodedInstr::Lbu { rd, rs1, .. } | DecodedInstr::Lhu { rd, rs1, .. }
        | DecodedInstr::Lwu { rd, rs1, .. } | DecodedInstr::Jalr { rd, rs1, .. }
        | DecodedInstr::Addiw { rd, rs1, .. } => rd < 32 && rs1 < 32,
        DecodedInstr::Slliw { rd, rs1, shamt, .. } | DecodedInstr::Srliw { rd, rs1, shamt, .. }
        | DecodedInstr::Sraiw { rd, rs1, shamt, .. } => rd < 32 && rs1 < 32 && shamt < 32,
        DecodedInstr::Sb { rs1, rs2, .. } | DecodedInstr::Sh { rs1, rs2, .. }
        | DecodedInstr::Sw { rs1, rs2, .. } | DecodedInstr::Sd { rs1, rs2, .. }
        | DecodedInstr::Beq { rs1, rs2, .. } | DecodedInstr::Bne { rs1, rs2, .. }
        | DecodedInstr::Blt { rs1, rs2, .. } | DecodedInstr::Bge { rs1, rs2, .. }
        | DecodedInstr::Bltu { rs1, rs2, .. } | DecodedInstr::Bgeu { rs1, rs2, .. } => rs1 < 32
            && rs2 < 32,
        DecodedInstr::Jal { rd, .. } | DecodedInstr::Lui { rd, .. } | DecodedInstr::Auipc {
            rd,
            ..
        } => rd < 32,
        DecodedInstr::Csrrw { rd, rs1, csr, .. } | DecodedInstr::Csrrs { rd, rs1, csr, .. }
        | DecodedInstr::Csrrc { rd, rs1, csr, .. } | DecodedInstr::Csrrwi { rd, rs1, csr, .. }
        | DecodedInstr::Csrrsi { rd, rs1, csr, .. } | DecodedInstr::Csrrci { rd, rs1, csr, .. } =>
            rd < 32 && rs1 < 32 && csr < 4096,
        _ => true,
    }
}

/// Decoded instructions are well formed.
pub proof fn lemma_decode_wf(inst: u32)
    ensures
        instr_wf(decode_spec(inst)),
{
    lemma_decode_fields_in_range(inst);
}

/// Branch and jump offsets are even.
pub proof fn lemma_branch_offsets_even(inst: u32)
    ensures
        imm_b(inst) & 1 == 0,
        imm_j(inst) & 1 == 0,
{
    let b = ((((inst >> 31u32) & 1) << 12u32) | (((inst >> 7u32) & 1) << 11u32) | (((inst
        >> 25u32) & 0x3f) << 5u32) | (((inst >> 8u32) & 0xf) << 1u32)) as u64;
    assert(b & 1 == 0) by (bit_vector)
        requires
            b == ((((inst >> 31u32) & 1) << 12u32) | (((inst >> 7u32) & 1) << 11u32) | (((inst
                >> 25u32) & 0x3f) << 5u32) | (((inst >> 8u32) & 0xf) << 1u32)) as u64,
    ;
    assert((b | 0xffff_ffff_ffff_e000) & 1 == 0) by (bit_vector)
        requires
            b & 1 == 0,
    ;
    let j = ((((inst >> 31u32) & 1) << 20u32) | (((inst >> 12u32) & 0xff) << 12u32) | (((inst
        >> 20u32) & 1) << 11u32) | (((inst >> 21u32) & 0x3ff) << 1u32)) as u64;
    assert(j & 1 == 0) by (bit_vector)
        requires
            j == ((((inst >> 31u32) & 1) << 20u32) | (((inst >> 12u32) & 0xff) << 12u32) | (((inst
                >> 20u32) & 1) << 11u32) | (((inst >> 21u32) & 0x3ff) << 1u32)) as u64,
    ;
    assert((j | 0xffff_ffff_ffe0_0000) & 1 == 0) by (bit_vector)
        requires
            j & 1 == 0,
    ;
}


proof fn lemma_sext_ranges(v: u64)
    ensures
        v < 0x1000 ==> -2048 <= sext12(v) as i64 <= 2047,
        v < 0x2000 ==> -4096 <= sext13(v) as i64 <= 4095,
        v < 0x20_0000 ==> -0x10_0000 <= sext21(v) as i64 <= 0xf_ffff,
{
    assert(v < 0x1000 ==> -2048 <= (if v & 0x800 != 0 { v | 0xffff_ffff_ffff_f000 } else { v })
        as i64 <= 2047) by (bit_vector);
    assert(v < 0x2000 ==> -4096 <= (if v & 0x1000 != 0 { v | 0xffff_ffff_ffff_e000 } else { v })
        as i64 <= 4095) by (bit_vector);
    assert(v < 0x20_0000 ==> -0x10_0000 <= (if v & 0x10_0000 != 0 {
        v | 0xffff_ffff_ffe0_0000
    } else {
        v
    }) as i64 <= 0xf_ffff) by (bit_vector);
}

/// The immediates of the instruction formats lie in their ranges: I- and S-type immediates
/// in [-2048, 2047], B-type in [-4096, 4094] and J-type in [-2^20, 2^20 - 2] (both even), and
/// the U-type immediate has its low 12 bits clear.
pub proof fn lemma_immediate_ranges(inst: u32)
    ensures
        -2048 <= imm_i(inst) as i64 <= 2047,
        -2048 <= imm_s(inst) as i64 <= 2047,
        -4096 <= imm_b(inst) as i64 <= 4094,
        imm_b(inst) & 1 == 0,
        -0x10_0000 <= imm_j(inst) as i64 <= 0xf_fffe,
        imm_j(inst) & 1 == 0,
        imm_u(inst) & 0xfff == 0,
{
    lemma_branch_offsets_even(inst);
    let i = (inst >> 20u32) as u64;
    assert(i < 0x1000) by (bit_vector)
        requires
            i == (inst >> 20u32) as u64,
    ;
    lemma_sext_ranges(i);
    let s = ((((inst >> 25u32) & 0x7f) << 5u32) | ((inst >> 7u32) & 0x1f)) as u64;
    assert(s < 0x1000) by (bit_vector)
        requires
            s == ((((inst >> 25u32) & 0x7f) << 5u32) | ((inst >> 7u32) & 0x1f)) as u64,
    ;
    lemma_sext_ranges(s);
    let b = ((((inst >> 31u32) & 1) << 12u32) | (((inst >> 7u32) & 1) << 11u32) | (((inst
        >> 25u32) & 0x3f) << 5u32) | (((inst >> 8u32) & 0xf) << 1u32)) as u64;
    assert(b < 0x2000) by (bit_vector)
        requires
            b == ((((inst >> 31u32) & 1) << 12u32) | (((inst >> 7u32) & 1) << 11u32) | (((inst
                >> 25u32) & 0x3f) << 5u32) | (((inst >> 8u32) & 0xf) << 1u32)) as u64,
    ;
    lemma_sext_ranges(b);
    let x = imm_b(inst);
    assert(x & 1 == 0 && x as i64 <= 4095 ==> x as i64 <= 4094) by (bit_vector);
    let j = ((((inst >> 31u32) & 1) << 20u32) | (((inst >> 12u32) & 0xff) << 12u32) | (((inst
        >> 20u32) & 1) << 11u32) | (((inst >> 21u32) & 0x3ff) << 1u32)) as u64;
    assert(j < 0x20_0000) by (bit_vector)
        requires
            j == ((((inst >> 31u32) & 1) << 20u32) | (((inst >> 12u32) & 0xff) << 12u32) | (((inst
                >> 20u32) & 1) << 11u32) | (((inst >> 21u32) & 0x3ff) << 1u32)) as u64,
    ;
    lemma_sext_ranges(j);
    let y = imm_j(inst);
    assert(y & 1 == 0 && y as i64 <= 0xf_ffff ==> y as i64 <= 0xf_fffe) by (bit_vector);
    let u = (inst & 0xffff_f000) as u64;
    assert((if u & 0x8000_0000 != 0 { u | 0xffff_ffff_0000_0000 } else { u }) & 0xfff == 0)
        by (bit_vector)
        requires
            u == (inst & 0xffff_f000) as u64,
    ;
}


/// The I-type immediate is bits 31..20 shifted down arithmetically.
proof fn lemma_imm_i_arith(inst: u32)
    ensures
        imm_i(inst) == (((inst as i32) >> 20u32) as i64) as u64,
{
    assert((if (inst >> 20u32) as u64 & 0x800 != 0 { (inst >> 20u32) as u64 | 0xffff_ffff_ffff_f000 } else { (inst >> 20u32) as u64 }) == (((inst as i32) >> 20u32) as i64) as u64) by (bit_vector);
}

/// The U-type immediate is the word with its low 12 bits cleared, sign-extended.
proof fn lemma_imm_u_arith(inst: u32)
    ensures
        imm_u(inst) == ((inst & 0xffff_f000) as i32) as i64 as u64,
{
    let v = (inst & 0xffff_f000) as u64;
    assert((if v & 0x8000_0000 != 0 { v | 0xffff_ffff_0000_0000 } else { v }) == ((inst & 0xffff_f000) as i32) as i64 as u64) by (bit_vector)
        requires
            v == (inst & 0xffff_f000) as u64,
    ;
}

/// Register-register instructions (opcode 0x33) are told apart by funct3 (bits 14..12) and funct7 (bits 31..25) and name rd, rs1 and rs2 from bits 11..7, 19..15 and 24..20.
pub proof fn lemma_decode_op(inst: u32)
    requires
        inst & 0x7f == 0x33,
    ensures
        ({
            let rd = ((inst >> 7u32) & 0x1f) as usize;
            let rs1 = ((inst >> 15u32) & 0x1f) as usize;
            let rs2 = ((inst >> 20u32) & 0x1f) as usize;
            let f3 = (inst >> 12u32) & 0x7;
            let f7 = (inst >> 25u32) & 0x7f;
            &&& f3 == 0 && f7 == 0 ==> decode_spec(inst) == DecodedInstr::Add { raw: inst, rd, rs1, rs2 }
            &&& f3 == 0 && f7 == 0x20 ==> decode_spec(inst) == DecodedInstr::Sub { raw: inst, rd, rs1, rs2 }
            &&& f3 == 1 && f7 == 0 ==> decode_spec(inst) == DecodedInstr::Sll { raw: inst, rd, rs1, rs2 }
            &&& f3 == 2 && f7 == 0 ==> decode_spec(inst) == DecodedInstr::Slt { raw: inst, rd, rs1, rs2 }
            &&& f3 == 3 && f7 == 0 ==> decode_spec(inst) == DecodedInstr::Sltu { raw: inst, rd, rs1, rs2 }
            &&& f3 == 4 && f7 == 0 ==> decode_spec(inst) == DecodedInstr::Xor { raw: inst, rd, rs1, rs2 }
            &&& f3 == 5 && f7 == 0 ==> decode_spec(inst) == DecodedInstr::Srl { raw: inst, rd, rs1, rs2 }
            &&& f3 == 5 && f7 == 0x20 ==> decode_spec(inst) == DecodedInstr::Sra { raw: inst, rd, rs1, rs2 }
            &&& f3 == 6 && f7 == 0 ==> decode_spec(inst) == DecodedInstr::Or { raw: inst, rd, rs1, rs2 }
            &&& f3 == 7 && f7 == 0 ==> decode_spec(inst) == DecodedInstr::And { raw: inst, rd, rs1, rs2 }
            &&& f3 == 0 && f7 == 1 ==> decode_spec(inst) == DecodedInstr::Mul { raw: inst, rd, rs1, rs2 }
            &&& f3 == 1 && f7 == 1 ==> decode_spec(inst) == DecodedInstr::Mulh { raw: inst, rd, rs1, rs2 }
            &&& f3 == 2 && f7 == 1 ==> decode_spec(inst) == DecodedInstr::Mulhsu { raw: inst, rd, rs1, rs2 }
            &&& f3 == 3 && f7 == 1 ==> decode_spec(inst) == DecodedInstr::Mulhu { raw: inst, rd, rs1, rs2 }
            &&& f3 == 4 && f7 == 1 ==> decode_spec(inst) == DecodedInstr::Div { raw: inst, rd, rs1, rs2 }
            &&& f3 == 5 && f7 == 1 ==> decode_spec(inst) == DecodedInstr::Divu { raw: inst, rd, rs1, rs2 }
            &&& f3 == 6 && f7 == 1 ==> decode_spec(inst) == DecodedInstr::Rem { raw: inst, rd, rs1, rs2 }
            &&& f3 == 7 && f7 == 1 ==> decode_spec(inst) == DecodedInstr::Remu { raw: inst, rd, rs1, rs2 }
            &&& f7 != 0 && f7 != 1 && f7 != 0x20 ==> decode_spec(inst) == DecodedInstr::IllegalInstruction { inst }
        }),
{
}

/// Word register-register instructions (opcode 0x3b) are told apart by funct3 and funct7.
pub proof fn lemma_decode_op32(inst: u32)
    requires
        inst & 0x7f == 0x3b,
    ensures
        ({
            let rd = ((inst >> 7u32) & 0x1f) as usize;
            let rs1 = ((inst >> 15u32) & 0x1f) as usize;
            let rs2 = ((inst >> 20u32) & 0x1f) as usize;
            let f3 = (inst >> 12u32) & 0x7;
            let f7 = (inst >> 25u32) & 0x7f;
            &&& f3 == 0 && f7 == 0 ==> decode_spec(inst) == DecodedInstr::Addw { raw: inst, rd, rs1, rs2 }
            &&& f3 == 0 && f7 == 0x20 ==> decode_spec(inst) == DecodedInstr::Subw { raw: inst, rd, rs1, rs2 }
            &&& f3 == 1 && f7 == 0 ==> decode_spec(inst) == DecodedInstr::Sllw { raw: inst, rd, rs1, rs2 }
            &&& f3 == 5 && f7 == 0 ==> decode_spec(inst) == DecodedInstr::Srlw { raw: inst, rd, rs1, rs2 }
            &&& f3 == 5 && f7 == 0x20 ==> decode_spec(inst) == DecodedInstr::Sraw { raw: inst, rd, rs1, rs2 }
            &&& f3 == 0 && f7 == 1 ==> decode_spec(inst) == DecodedInstr::Mulw { raw: inst, rd, rs1, rs2 }
            &&& f3 == 4 && f7 == 1 ==> decode_spec(inst) == DecodedInstr::Divw { raw: inst, rd, rs1, rs2 }
            &&& f3 == 5 && f7 == 1 ==> decode_spec(inst) == DecodedInstr::Divuw { raw: inst, rd, rs1, rs2 }
            &&& f3 == 6 && f7 == 1 ==> decode_spec(inst) == DecodedInstr::Remw { raw: inst, rd, rs1, rs2 }
            &&& f3 == 7 && f7 == 1 ==> decode_spec(inst) == DecodedInstr::Remuw { raw: inst, rd, rs1, rs2 }
        }),
{
}

/// Register-immediate instructions (opcode 0x13) are told apart by funct3 and carry the sign-extended 12-bit immediate of bits 31..20.
pub proof fn lemma_decode_op_imm(inst: u32)
    requires
        inst & 0x7f == 0x13,
    ensures
        ({
            let rd = ((inst >> 7u32) & 0x1f) as usize;
            let rs1 = ((inst >> 15u32) & 0x1f) as usize;
            let rs2 = ((inst >> 20u32) & 0x1f) as usize;
            let f3 = (inst >> 12u32) & 0x7;
            let f7 = (inst >> 25u32) & 0x7f;
            let imm: u64 = (((inst as i32) >> 20u32) as i64) as u64;
            &&& f3 == 0 ==> decode_spec(inst) == DecodedInstr::Addi { raw: inst, rd, rs1, imm }
            &&& f3 == 2 ==> decode_spec(inst) == DecodedInstr::Slti { raw: inst, rd, rs1, imm }
            &&& f3 == 3 ==> decode_spec(inst) == DecodedInstr::Sltiu { raw: inst, rd, rs1, imm }
            &&& f3 == 4 ==> decode_spec(inst) == DecodedInstr::Xori { raw: inst, rd, rs1, imm }
            &&& f3 == 6 ==> decode_spec(inst) == DecodedInstr::Ori { raw: inst, rd, rs1, imm }
            &&& f3 == 7 ==> decode_spec(inst) == DecodedInstr::Andi { raw: inst, rd, rs1, imm }
            &&& f3 == 1 ==> decode_spec(inst) == DecodedInstr::Slli { raw: inst, rd, rs1, imm }
            &&& f3 == 5 ==> decode_spec(inst) == DecodedInstr::Srli { raw: inst, rd, rs1, imm }
        }),
{
    lemma_imm_i_arith(inst);
}

/// Loads (opcode 0x03): funct3 0, 1, 2 and 3 load a signed byte, halfword, word and doubleword, 4, 5 and 6 an unsigned byte, halfword and word; the offset is the sign-extended 12-bit immediate of bits 31..20.
pub proof fn lemma_decode_loads(inst: u32)
    requires
        inst & 0x7f == 0x03,
    ensures
        ({
            let rd = ((inst >> 7u32) & 0x1f) as usize;
            let rs1 = ((inst >> 15u32) & 0x1f) as usize;
            let rs2 = ((inst >> 20u32) & 0x1f) as usize;
            let f3 = (inst >> 12u32) & 0x7;
            let f7 = (inst >> 25u32) & 0x7f;
            let imm: u64 = (((inst as i32) >> 20u32) as i64) as u64;
            &&& f3 == 0 ==> decode_spec(inst) == DecodedInstr::Lb { raw: inst, rd, rs1, imm }
            &&& f3 == 1 ==> decode_spec(inst) == DecodedInstr::Lh { raw: inst, rd, rs1, imm }
            &&& f3 == 2 ==> decode_spec(inst) == DecodedInstr::Lw { raw: inst, rd, rs1, imm }
            &&& f3 == 3 ==> decode_spec(inst) == DecodedInstr::Ld { raw: inst, rd, rs1, imm }
            &&& f3 == 4 ==> decode_spec(inst) == DecodedInstr::Lbu { raw: inst, rd, rs1, imm }
            &&& f3 == 5 ==> decode_spec(inst) == DecodedInstr::Lhu { raw: inst, rd, rs1, imm }
            &&& f3 == 6 ==> decode_spec(inst) == DecodedInstr::Lwu { raw: inst, rd, rs1, imm }
            &&& f3 == 7 ==> decode_spec(inst) == DecodedInstr::IllegalInstruction { inst }
        }),
{
    lemma_imm_i_arith(inst);
}

/// `jalr` (opcode 0x67, funct3 0) carries the sign-extended 12-bit immediate of bits 31..20.
pub proof fn lemma_decode_jalr(inst: u32)
    requires
        inst & 0x7f == 0x67,
    ensures
        ({
            let rd = ((inst >> 7u32) & 0x1f) as usize;
            let rs1 = ((inst >> 15u32) & 0x1f) as usize;
            let rs2 = ((inst >> 20u32) & 0x1f) as usize;
            let f3 = (inst >> 12u32) & 0x7;
            let f7 = (inst >> 25u32) & 0x7f;
            let imm: u64 = (((inst as i32) >> 20u32) as i64) as u64;
            &&& f3 == 0 ==> decode_spec(inst) == DecodedInstr::Jalr { raw: inst, rd, rs1, imm }
            &&& f3 != 0 ==> decode_spec(inst) == DecodedInstr::IllegalInstruction { inst }
        }),
{
    lemma_imm_i_arith(inst);
}

/// Stores (opcode 0x23): funct3 0 to 3 store a byte, halfword, word and doubleword of rs2; the offset is the sign-extended immediate of bits 31..25 and 11..7.
pub proof fn lemma_decode_stores(inst: u32)
    requires
        inst & 0x7f == 0x23,
    ensures
        ({
            let rd = ((inst >> 7u32) & 0x1f) as usize;
            let rs1 = ((inst >> 15u32) & 0x1f) as usize;
            let rs2 = ((inst >> 20u32) & 0x1f) as usize;
            let f3 = (inst >> 12u32) & 0x7;
            let f7 = (inst >> 25u32) & 0x7f;
            let imm: u64 = ((((inst as i32) >> 25u32) << 5u32) as i64 as u64) | (((inst >> 7u32) & 0x1f) as u64);
            &&& f3 == 0 ==> decode_spec(inst) == DecodedInstr::Sb { raw: inst, rs1, rs2, imm }
            &&& f3 == 1 ==> decode_spec(inst) == DecodedInstr::Sh { raw: inst, rs1, rs2, imm }
            &&& f3 == 2 ==> decode_spec(inst) == DecodedInstr::Sw { raw: inst, rs1, rs2, imm }
            &&& f3 == 3 ==> decode_spec(inst) == DecodedInstr::Sd { raw: inst, rs1, rs2, imm }
            &&& f3 >= 4 ==> decode_spec(inst) == DecodedInstr::IllegalInstruction { inst }
        }),
{
    let hi = (inst >> 25u32) & 0x7f;
    let lo = (inst >> 7u32) & 0x1f;
    let v = ((hi << 5u32) | lo) as u64;
    assert((if v & 0x800 != 0 { v | 0xffff_ffff_ffff_f000 } else { v }) == ((((inst as i32) >> 25u32) << 5u32) as i64 as u64) | (((inst >> 7u32) & 0x1f) as u64)) by (bit_vector)
        requires
            hi == (inst >> 25u32) & 0x7f,
            lo == (inst >> 7u32) & 0x1f,
            v == ((hi << 5u32) | lo) as u64,
    ;
}

/// Branches (opcode 0x63): funct3 0 and 1 test equality, 4 and 5 signed order, 6 and 7 unsigned order; the offset is the sign-extended, even immediate of bits 31, 7, 30..25 and 11..8.
pub proof fn lemma_decode_branches(inst: u32)
    requires
        inst & 0x7f == 0x63,
    ensures
        ({
            let rd = ((inst >> 7u32) & 0x1f) as usize;
            let rs1 = ((inst >> 15u32) & 0x1f) as usize;
            let rs2 = ((inst >> 20u32) & 0x1f) as usize;
            let f3 = (inst >> 12u32) & 0x7;
            let f7 = (inst >> 25u32) & 0x7f;
            let imm: u64 = ((((inst as i32) >> 31u32) << 12u32) as i64 as u64) | ((((inst >> 7u32) & 1) << 11u32) as u64) | ((((inst >> 25u32) & 0x3f) << 5u32) as u64) | ((((inst >> 8u32) & 0xf) << 1u32) as u64);
            &&& f3 == 0 ==> decode_spec(inst) == DecodedInstr::Beq { raw: inst, rs1, rs2, imm }
            &&& f3 == 1 ==> decode_spec(inst) == DecodedInstr::Bne { raw: inst, rs1, rs2, imm }
            &&& f3 == 4 ==> decode_spec(inst) == DecodedInstr::Blt { raw: inst, rs1, rs2, imm }
            &&& f3 == 5 ==> decode_spec(inst) == DecodedInstr::Bge { raw: inst, rs1, rs2, imm }
            &&& f3 == 6 ==> decode_spec(inst) == DecodedInstr::Bltu { raw: inst, rs1, rs2, imm }
            &&& f3 == 7 ==> decode_spec(inst) == DecodedInstr::Bgeu { raw: inst, rs1, rs2, imm }
            &&& (f3 == 2 || f3 == 3) ==> decode_spec(inst) == DecodedInstr::IllegalInstruction { inst }
        }),
{
    let v = ((((inst >> 31u32) & 1) << 12u32) | (((inst >> 7u32) & 1) << 11u32) | (((inst >> 25u32) & 0x3f) << 5u32) | (((inst >> 8u32) & 0xf) << 1u32)) as u64;
    assert((if v & 0x1000 != 0 { v | 0xffff_ffff_ffff_e000 } else { v }) == ((((inst as i32) >> 31u32) << 12u32) as i64 as u64) | ((((inst >> 7u32) & 1) << 11u32) as u64) | ((((inst >> 25u32) & 0x3f) << 5u32) as u64) | ((((inst >> 8u32) & 0xf) << 1u32) as u64)) by (bit_vector)
        requires
            v == ((((inst >> 31u32) & 1) << 12u32) | (((inst >> 7u32) & 1) << 11u32) | (((inst >> 25u32) & 0x3f) << 5u32) | (((inst >> 8u32) & 0xf) << 1u32)) as u64,
    ;
}

/// `lui` (opcode 0x37) carries bits 31..12 in place, sign-extended.
pub proof fn lemma_decode_lui(inst: u32)
    requires
        inst & 0x7f == 0x37,
    ensures
        ({
            let rd = ((inst >> 7u32) & 0x1f) as usize;
            let rs1 = ((inst >> 15u32) & 0x1f) as usize;
            let rs2 = ((inst >> 20u32) & 0x1f) as usize;
            let f3 = (inst >> 12u32) & 0x7;
            let f7 = (inst >> 25u32) & 0x7f;
            let imm: u64 = ((inst & 0xffff_f000) as i32) as i64 as u64;
            &&& decode_spec(inst) == DecodedInstr::Lui { raw: inst, rd, imm }
        }),
{
    lemma_imm_u_arith(inst);
}

/// `auipc` (opcode 0x17) carries bits 31..12 in place, sign-extended.
pub proof fn lemma_decode_auipc(inst: u32)
    requires
        inst & 0x7f == 0x17,
    ensures
        ({
            let rd = ((inst >> 7u32) & 0x1f) as usize;
            let rs1 = ((inst >> 15u32) & 0x1f) as usize;
            let rs2 = ((inst >> 20u32) & 0x1f) as usize;
            let f3 = (inst >> 12u32) & 0x7;
            let f7 = (inst >> 25u32) & 0x7f;
            let imm: u64 = ((inst & 0xffff_f000) as i32) as i64 as u64;
            &&& decode_spec(inst) == DecodedInstr::Auipc { raw: inst, rd, imm }
        }),
{
    lemma_imm_u_arith(inst);
}

/// Atomic memory operations (opcode 0x2f) are told apart by funct5 (bits 31..27), on words (funct3 2) or doublewords (funct3 3).
pub proof fn lemma_decode_amo(inst: u32)
    requires
        inst & 0x7f == 0x2f,
    ensures
        ({
            let rd = ((inst >> 7u32) & 0x1f) as usize;
            let rs1 = ((inst >> 15u32) & 0x1f) as usize;
            let rs2 = ((inst >> 20u32) & 0x1f) as usize;
            let f3 = (inst >> 12u32) & 0x7;
            let f7 = (inst >> 25u32) & 0x7f;
            let f5 = inst >> 27u32;
            &&& f5 == 1 && (f3 == 2 || f3 == 3) ==> decode_spec(inst) == DecodedInstr::Amoswap { raw: inst, rd, rs1, rs2 }
            &&& f5 == 0 && (f3 == 2 || f3 == 3) ==> decode_spec(inst) == DecodedInstr::Amoadd { raw: inst, rd, rs1, rs2 }
            &&& f5 == 4 && (f3 == 2 || f3 == 3) ==> decode_spec(inst) == DecodedInstr::Amoxor { raw: inst, rd, rs1, rs2 }
            &&& f5 == 0xc && (f3 == 2 || f3 == 3) ==> decode_spec(inst) == DecodedInstr::Amoand { raw: inst, rd, rs1, rs2 }
            &&& f5 == 8 && (f3 == 2 || f3 == 3) ==> decode_spec(inst) == DecodedInstr::Amoor { raw: inst, rd, rs1, rs2 }
            &&& f5 == 0x10 && (f3 == 2 || f3 == 3) ==> decode_spec(inst) == DecodedInstr::Amomin { raw: inst, rd, rs1, rs2 }
            &&& f5 == 0x14 && (f3 == 2 || f3 == 3) ==> decode_spec(inst) == DecodedInstr::Amomax { raw: inst, rd, rs1, rs2 }
            &&& f5 == 0x18 && (f3 == 2 || f3 == 3) ==> decode_spec(inst) == DecodedInstr::Amominu { raw: inst, rd, rs1, rs2 }
            &&& f5 == 0x1c && (f3 == 2 || f3 == 3) ==> decode_spec(inst) == DecodedInstr::Amomaxu { raw: inst, rd, rs1, rs2 }
            &&& f3 != 2 && f3 != 3 ==> decode_spec(inst) == DecodedInstr::IllegalInstruction { inst }
        }),
{
    assert((((inst >> 25u32) & 0x7f) as usize) >> 2usize == (inst >> 27u32) as usize) by (bit_vector);
}


/// CSR instructions (opcode 0x73): funct3 1, 2, 3 are `csrrw`, `csrrs`, `csrrc` and 5, 6, 7
/// their immediate forms, with the CSR number in bits 31..20 and the 5-bit immediate in bits
/// 19..15.
pub proof fn lemma_decode_csr(inst: u32)
    requires
        inst & 0x7f == 0x73,
    ensures
        ({
            let rd = ((inst >> 7u32) & 0x1f) as usize;
            let rs1 = ((inst >> 15u32) & 0x1f) as usize;
            let f3 = (inst >> 12u32) & 0x7;
            let csr = (inst >> 20u32) as usize;
            let uimm = (inst & 0xf8000) >> 15u32;
            &&& f3 == 1 ==> decode_spec(inst) == DecodedInstr::Csrrw { raw: inst, rd, rs1, csr }
            &&& f3 == 2 ==> decode_spec(inst) == DecodedInstr::Csrrs { raw: inst, rd, rs1, csr }
            &&& f3 == 3 ==> decode_spec(inst) == DecodedInstr::Csrrc { raw: inst, rd, rs1, csr }
            &&& f3 == 5 ==> decode_spec(inst) == DecodedInstr::Csrrwi { raw: inst, rd, rs1, csr, uimm }
            &&& f3 == 6 ==> decode_spec(inst) == DecodedInstr::Csrrsi { raw: inst, rd, rs1, csr, uimm }
            &&& f3 == 7 ==> decode_spec(inst) == DecodedInstr::Csrrci { raw: inst, rd, rs1, csr, uimm }
        }),
{
}

} // verus!
