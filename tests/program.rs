use ola_prover::binary_program::{
    BinaryInstruction, BinaryProgram, DecodeError, EncodeError, OlaProphet, ParseError,
};
use ola_prover::hex::{hex16, parse_hex_u64};
use ola_prover::lookup::{CircuitBuilder, Target};
use ola_prover::vm::{ImmediateValue, OlaOpcode, OlaOperand, OlaRegister, OlaSpecialRegister};

fn reg(r: OlaRegister) -> Option<OlaOperand> {
    Some(OlaOperand::RegisterOperand { register: r })
}

fn imm(hex: &str) -> ImmediateValue {
    ImmediateValue { hex: hex.to_string() }
}

fn inst(opcode: OlaOpcode, op0: Option<OlaOperand>, op1: Option<OlaOperand>, dst: Option<OlaOperand>) -> BinaryInstruction {
    BinaryInstruction { opcode, op0, op1, dst, prophet: None }
}

fn add_r1_r2_r3() -> BinaryInstruction {
    inst(OlaOpcode::ADD, reg(OlaRegister::R2), reg(OlaRegister::R3), reg(OlaRegister::R1))
}

fn mov_r1_5() -> BinaryInstruction {
    inst(
        OlaOpcode::MOV,
        None,
        Some(OlaOperand::ImmediateOperand { value: imm("0x5") }),
        reg(OlaRegister::R1),
    )
}

#[test]
fn hex_words_have_sixteen_digits() {
    assert_eq!(hex16(255), "0x00000000000000ff");
    assert_eq!(hex16(u64::MAX), "0xffffffffffffffff");
    assert_eq!(hex16(0x1234_abcd), format!("0x{:0>16x}", 0x1234_abcdu64));
}

#[test]
fn hex_parsing_follows_from_str_radix() {
    assert_eq!(parse_hex_u64("0x0xff"), Some(255));
    assert_eq!(parse_hex_u64("+1F"), Some(31));
    assert_eq!(parse_hex_u64("ffffffffffffffff"), Some(u64::MAX));
    assert_eq!(parse_hex_u64("10000000000000000"), None);
    assert_eq!(parse_hex_u64(""), None);
    assert_eq!(parse_hex_u64("0x"), None);
    assert_eq!(parse_hex_u64("+"), None);
    assert_eq!(parse_hex_u64("-1"), None);
    assert_eq!(parse_hex_u64("12g"), None);
}

#[test]
fn encode_register_instruction() {
    let word: u64 = (1 << 59) | (1 << 48) | (1 << 40) | (1 << 31);
    assert_eq!(add_r1_r2_r3().encode(), Ok(vec![format!("0x{:0>16x}", word)]));
}

#[test]
fn encode_immediate_operand() {
    let word: u64 = (1 << 62) | (1 << 40) | (1 << 27);
    assert_eq!(mov_r1_5().encode(), Ok(vec![format!("0x{:0>16x}", word), "0x5".to_string()]));
}

#[test]
fn encode_refuses_misplaced_operands() {
    let bad_op0 = inst(OlaOpcode::ADD, Some(OlaOperand::ImmediateOperand { value: imm("0x1") }), reg(OlaRegister::R3), reg(OlaRegister::R1));
    assert_eq!(bad_op0.encode(), Err(EncodeError::Op0Immediate));
    let special = Some(OlaOperand::SpecialReg { special_reg: OlaSpecialRegister::PSP });
    let bad_op1 = inst(OlaOpcode::ADD, reg(OlaRegister::R2), special.clone(), reg(OlaRegister::R1));
    assert_eq!(bad_op1.encode(), Err(EncodeError::SpecialRegNotMov));
    let mov_psp = inst(OlaOpcode::MOV, None, special.clone(), reg(OlaRegister::R1));
    assert!(mov_psp.encode().is_ok());
    let bad_dst = inst(OlaOpcode::MOV, None, reg(OlaRegister::R2), special);
    assert_eq!(bad_dst.encode(), Err(EncodeError::DstSpecialReg));
    let factor = Some(OlaOperand::RegisterWithFactor { register: OlaRegister::R0, factor: imm("0x2") });
    let bad_factor_op0 = inst(OlaOpcode::ADD, factor.clone(), reg(OlaRegister::R3), reg(OlaRegister::R1));
    assert_eq!(bad_factor_op0.encode(), Err(EncodeError::Op0RegWithFactor));
    let bad_factor_dst = inst(OlaOpcode::ADD, reg(OlaRegister::R3), reg(OlaRegister::R3), factor);
    assert_eq!(bad_factor_dst.encode(), Err(EncodeError::DstRegWithFactor));
}

#[test]
fn binary_length_counts_immediate_words() {
    assert_eq!(add_r1_r2_r3().binary_length(), 1);
    assert_eq!(mov_r1_5().binary_length(), 2);
    let mload = inst(OlaOpcode::MLOAD, reg(OlaRegister::R2), None, reg(OlaRegister::R1));
    assert_eq!(mload.binary_length(), 2);
}

#[test]
fn instruction_word_and_immediate_value() {
    let word: u64 = (1 << 62) | (1 << 40) | (1 << 27);
    assert_eq!(mov_r1_5().get_inst_imm_u64(), Ok((word, Some(5))));
    let word2: u64 = (1 << 59) | (1 << 48) | (1 << 40) | (1 << 31);
    assert_eq!(add_r1_r2_r3().get_inst_imm_u64(), Ok((word2, None)));
    let bad = inst(OlaOpcode::MOV, None, Some(OlaOperand::ImmediateOperand { value: imm("zz") }), reg(OlaRegister::R1));
    assert_eq!(bad.get_inst_imm_u64(), Err(ParseError::InvalidWord));
}

#[test]
fn parse_u64_from_string_reads_hex() {
    assert_eq!(BinaryInstruction::parse_u64_from_string("0x10".to_string()), Ok(16));
    assert_eq!(BinaryInstruction::parse_u64_from_string("x10".to_string()), Err(ParseError::InvalidWord));
}

#[test]
fn program_joins_encoded_lines() {
    let mut with_prophet = mov_r1_5();
    with_prophet.prophet = Some(OlaProphet {
        host: 3,
        code: "x = 1".to_string(),
        ctx: vec![],
        inputs: vec![],
        outputs: vec![],
    });
    let p = BinaryProgram::from_instructions(vec![add_r1_r2_r3(), with_prophet], None, false).unwrap();
    let w1: u64 = (1 << 59) | (1 << 48) | (1 << 40) | (1 << 31);
    let w2: u64 = (1 << 62) | (1 << 40) | (1 << 27);
    assert_eq!(p.bytecode, format!("0x{:0>16x}\n0x{:0>16x}\n0x5", w1, w2));
    assert_eq!(p.prophets.len(), 1);
    assert_eq!(p.prophets[0].host, 3);
    assert!(p.debug_info.is_none());
    assert_eq!(p.bytecode_u64s().unwrap(), vec![w1, w2, 5]);
}

#[test]
fn program_keeps_debug_info_on_request() {
    let mut info = std::collections::BTreeMap::new();
    info.insert(0usize, "main".to_string());
    let p = BinaryProgram::from_instructions(vec![add_r1_r2_r3()], Some(info.clone()), true).unwrap();
    assert_eq!(p.debug_info, Some(info.clone()));
    let q = BinaryProgram::from_instructions(vec![add_r1_r2_r3()], Some(info), false).unwrap();
    assert!(q.debug_info.is_none());
}

#[test]
fn program_fails_on_first_bad_instruction() {
    let bad = inst(OlaOpcode::ADD, reg(OlaRegister::R2), reg(OlaRegister::R3), Some(OlaOperand::ImmediateOperand { value: imm("0x1") }));
    let r = BinaryProgram::from_instructions(vec![add_r1_r2_r3(), bad], None, false);
    assert!(matches!(r, Err(EncodeError::DstImmediate)));
}

#[test]
fn bytecode_lines_must_all_be_words() {
    let p = BinaryProgram { bytecode: "0x1\n0x2\n".to_string(), prophets: vec![], debug_info: None };
    assert_eq!(p.bytecode_u64s(), Err(ParseError::InvalidWord));
    let q = BinaryProgram { bytecode: "0x1\nab".to_string(), prophets: vec![], debug_info: None };
    assert_eq!(q.bytecode_u64s(), Ok(vec![1, 0xab]));
    let empty = BinaryProgram { bytecode: String::new(), prophets: vec![], debug_info: None };
    assert_eq!(empty.bytecode_u64s(), Err(ParseError::InvalidWord));
}

#[test]
fn assembly_forms() {
    assert_eq!(add_r1_r2_r3().get_asm_form_code(), "add r1 r2 r3");
    assert_eq!(mov_r1_5().get_asm_form_code(), "mov r1 0x5");
    let mload = inst(
        OlaOpcode::MLOAD,
        reg(OlaRegister::R2),
        Some(OlaOperand::ImmediateOperand { value: imm("0x8") }),
        reg(OlaRegister::R1),
    );
    assert_eq!(mload.get_asm_form_code(), "mload r1 [r2+0x8]");
    let mstore = inst(
        OlaOpcode::MSTORE,
        reg(OlaRegister::R2),
        Some(OlaOperand::RegisterWithFactor { register: OlaRegister::R4, factor: imm("0x3") }),
        reg(OlaRegister::R1),
    );
    assert_eq!(mstore.get_asm_form_code(), "mstore [r2+r4,0x3] r1");
    assert_eq!(inst(OlaOpcode::RET, None, None, None).get_asm_form_code(), "ret");
    assert_eq!(inst(OlaOpcode::JMP, None, reg(OlaRegister::R7), None).get_asm_form_code(), "jmp r7");
}

#[test]
fn lookup_tables_are_deduplicated() {
    let mut b = CircuitBuilder::new();
    let t1 = vec![(0u16, 0u16, 0u16), (1, 1, 1)];
    let t2 = vec![(0u16, 1u16, 1u16)];
    assert_eq!(b.add_lookup_table_from_pairs(t1.clone()), 0);
    assert_eq!(b.add_lookup_table_from_pairs(t2), 1);
    assert_eq!(b.add_lookup_table_from_pairs(t1), 0);
    assert_eq!(b.get_luts_length(), 2);
}

#[test]
fn lookups_get_fresh_output_targets() {
    let mut b = CircuitBuilder::new();
    let idx = b.add_lookup_table_from_pairs(vec![(1u16, 2u16, 3u16)]);
    let a = Target::Wire { row: 0, column: 1 };
    let c = Target::Wire { row: 0, column: 2 };
    let out = b.add_lookup_from_index(a, c, idx);
    assert_eq!(out, Target::VirtualTarget { index: 0 });
    let out2 = b.add_lookup_from_index(c, a, idx);
    assert_eq!(out2, Target::VirtualTarget { index: 1 });
    assert_eq!(b.lut_to_lookups[idx], vec![(a, c, out), (c, a, out2)]);
}

#[test]
fn decode_reads_back_register_instruction() {
    let codes = add_r1_r2_r3().encode().unwrap();
    let d = BinaryInstruction::decode(codes, None).unwrap();
    assert_eq!(d.opcode, OlaOpcode::ADD);
    assert!(matches!(d.op0, Some(OlaOperand::RegisterOperand { register: OlaRegister::R2 })));
    assert!(matches!(d.op1, Some(OlaOperand::RegisterOperand { register: OlaRegister::R3 })));
    assert!(matches!(d.dst, Some(OlaOperand::RegisterOperand { register: OlaRegister::R1 })));
}

#[test]
fn decode_reads_back_immediate_and_memory_forms() {
    let d = BinaryInstruction::decode(mov_r1_5().encode().unwrap(), None).unwrap();
    assert_eq!(d.opcode, OlaOpcode::MOV);
    match d.op1 {
        Some(OlaOperand::ImmediateOperand { value }) => assert_eq!(value.hex, "0x5"),
        other => panic!("unexpected op1 {:?}", other),
    }
    let mstore = inst(
        OlaOpcode::MSTORE,
        reg(OlaRegister::R2),
        Some(OlaOperand::RegisterWithFactor { register: OlaRegister::R4, factor: imm("0x3") }),
        reg(OlaRegister::R1),
    );
    let d = BinaryInstruction::decode(mstore.encode().unwrap(), None).unwrap();
    assert_eq!(d.opcode, OlaOpcode::MSTORE);
    match d.op1 {
        Some(OlaOperand::RegisterWithFactor { register, factor }) => {
            assert_eq!(register, OlaRegister::R4);
            assert_eq!(factor.hex, "0x3");
        }
        other => panic!("unexpected op1 {:?}", other),
    }
}

#[test]
fn decode_mov_without_op1_register_reads_psp() {
    let mov = inst(OlaOpcode::MOV, None, Some(OlaOperand::SpecialReg { special_reg: OlaSpecialRegister::PSP }), reg(OlaRegister::R1));
    let d = BinaryInstruction::decode(mov.encode().unwrap(), None).unwrap();
    assert!(matches!(d.op1, Some(OlaOperand::SpecialReg { special_reg: OlaSpecialRegister::PSP })));
    assert!(d.op0.is_none());
}

#[test]
fn decode_errors() {
    assert_eq!(BinaryInstruction::decode(vec![], None).err(), Some(DecodeError::EmptyCode));
    assert_eq!(BinaryInstruction::decode(vec!["0xzz".to_string()], None).err(), Some(DecodeError::InvalidWord));
    assert_eq!(BinaryInstruction::decode(vec!["0x1".to_string()], None).err(), Some(DecodeError::NoOpcode));
    let mov = mov_r1_5().encode().unwrap();
    assert_eq!(BinaryInstruction::decode(vec![mov[0].clone()], None).err(), Some(DecodeError::LengthMismatch));
    assert_eq!(
        BinaryInstruction::decode(vec![mov[0].clone(), "q".to_string()], None).err(),
        Some(DecodeError::InvalidImmediate)
    );
    // An mload word with no register bits at all.
    let mload = format!("0x{:0>16x}", 1u64 << 22);
    assert_eq!(
        BinaryInstruction::decode(vec![mload, "0x0".to_string()], None).err(),
        Some(DecodeError::NoDstRegister)
    );
}

#[test]
fn instruction_description() {
    assert_eq!(
        add_r1_r2_r3().to_display_string(),
        "BinaryInstruction ==> opcode: add, op0: r2, op1: r3, dst: r1, prophet: None"
    );
    assert_eq!(
        inst(OlaOpcode::RET, None, None, None).to_display_string(),
        "BinaryInstruction ==> opcode: ret, op0: None, op1: None, dst: None, prophet: None"
    );
}
