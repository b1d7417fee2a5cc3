use rv_emu::instruction::DecodedInstr;

#[test]
fn decode_addi_positive_immediate() {
    // addi x1, x0, 5
    let d = DecodedInstr::decode(0x0050_0093);
    assert_eq!(d, DecodedInstr::Addi { raw: 0x0050_0093, rd: 1, rs1: 0, imm: 5 });
}

#[test]
fn decode_addi_sign_extends_immediate() {
    // addi x1, x0, -1
    let d = DecodedInstr::decode(0xfff0_0093);
    assert_eq!(d, DecodedInstr::Addi { raw: 0xfff0_0093, rd: 1, rs1: 0, imm: u64::MAX });
}

#[test]
fn decode_store_immediate() {
    // sd x5, -8(x2)
    let d = DecodedInstr::decode(0xfe51_3c23);
    match d {
        DecodedInstr::Sd { rs1, rs2, imm, .. } => {
            assert_eq!(rs1, 2);
            assert_eq!(rs2, 5);
            assert_eq!(imm as i64, -8);
        }
        other => panic!("unexpected {:?}", other),
    }
}

#[test]
fn decode_branch_backwards() {
    // beq x1, x2, -4
    let d = DecodedInstr::decode(0xfe20_8ee3);
    match d {
        DecodedInstr::Beq { rs1, rs2, imm, .. } => {
            assert_eq!(rs1, 1);
            assert_eq!(rs2, 2);
            assert_eq!(imm as i64, -4);
        }
        other => panic!("unexpected {:?}", other),
    }
    assert!(d.is_branch());
    assert!(d.is_building_block_end());
}

#[test]
fn decode_jal_backwards() {
    // jal x0, -8
    let d = DecodedInstr::decode(0xff9f_f06f);
    match d {
        DecodedInstr::Jal { rd, imm, .. } => {
            assert_eq!(rd, 0);
            assert_eq!(imm as i64, -8);
        }
        other => panic!("unexpected {:?}", other),
    }
    assert!(d.is_jump());
    assert!(!d.is_branch());
}

#[test]
fn decode_lui_and_auipc() {
    // lui x10, 0x80000 (upper immediate sign-extended)
    let d = DecodedInstr::decode(0x8000_0537);
    assert_eq!(d, DecodedInstr::Lui { raw: 0x8000_0537, rd: 10, imm: 0xffff_ffff_8000_0000 });
    // auipc x5, 0x1
    let d = DecodedInstr::decode(0x0000_1297);
    assert_eq!(d, DecodedInstr::Auipc { raw: 0x0000_1297, rd: 5, imm: 0x1000 });
}

#[test]
fn decode_register_register() {
    // add x6, x6, x5
    assert_eq!(
        DecodedInstr::decode(0x0053_0333),
        DecodedInstr::Add { raw: 0x0053_0333, rd: 6, rs1: 6, rs2: 5 }
    );
    // sub x3, x1, x2
    assert_eq!(
        DecodedInstr::decode(0x4020_81b3),
        DecodedInstr::Sub { raw: 0x4020_81b3, rd: 3, rs1: 1, rs2: 2 }
    );
    // mul x3, x1, x2
    assert_eq!(
        DecodedInstr::decode(0x0220_81b3),
        DecodedInstr::Mul { raw: 0x0220_81b3, rd: 3, rs1: 1, rs2: 2 }
    );
}

#[test]
fn decode_system_instructions() {
    assert_eq!(DecodedInstr::decode(0x0000_0073), DecodedInstr::Ecall { raw: 0x0000_0073 });
    assert_eq!(DecodedInstr::decode(0x0010_0073), DecodedInstr::Ebreak { raw: 0x0010_0073 });
    assert_eq!(DecodedInstr::decode(0x3020_0073), DecodedInstr::Mret { raw: 0x3020_0073 });
    assert_eq!(DecodedInstr::decode(0x1020_0073), DecodedInstr::Sret { raw: 0x1020_0073 });
    for raw in [0x0000_0073u32, 0x0010_0073, 0x3020_0073, 0x1020_0073] {
        assert!(DecodedInstr::decode(raw).is_jump());
        assert!(DecodedInstr::decode(raw).is_building_block_end());
    }
}

#[test]
fn decode_csr_instructions() {
    // csrrw x1, mstatus, x2
    assert_eq!(
        DecodedInstr::decode(0x3001_10f3),
        DecodedInstr::Csrrw { raw: 0x3001_10f3, rd: 1, rs1: 2, csr: 0x300 }
    );
    // csrrsi x0, mstatus, 8
    assert_eq!(
        DecodedInstr::decode(0x3004_6073),
        DecodedInstr::Csrrsi { raw: 0x3004_6073, rd: 0, rs1: 8, csr: 0x300, uimm: 8 }
    );
}

#[test]
fn decode_illegal_word() {
    let d = DecodedInstr::decode(0xffff_ffff);
    assert_eq!(d, DecodedInstr::IllegalInstruction { inst: 0xffff_ffff });
    assert!(d.is_building_block_end());
    assert!(!d.is_branch());
    assert!(!d.is_jump());
}

#[test]
fn arithmetic_is_not_a_block_end() {
    let d = DecodedInstr::decode(0x0050_0093);
    assert!(!d.is_building_block_end());
}
