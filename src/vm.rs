//! The instruction set that programs are encoded in: opcodes, registers and
//! operands, with their bit positions in an instruction word.
//!
//! An instruction word holds one bit per opcode (bits 31 down to 5), one bit
//! per register in each operand position (op0: bits 61 to 52, op1: bits 51 to
//! 42, dst: bits 41 to 32), and bit 62 when op1 is an immediate value.
use vstd::prelude::*;

verus! {

/// The opcodes, in the order in which decoding tries them.
#[derive(Clone, Copy, Debug, PartialEq, Eq, Structural)]
#[allow(non_camel_case_types, clippy::upper_case_acronyms)]
pub enum OlaOpcode {
    ADD,
    MUL,
    EQ,
    ASSERT,
    MOV,
    JMP,
    CJMP,
    CALL,
    RET,
    MLOAD,
    MSTORE,
    END,
    RC,
    AND,
    OR,
    XOR,
    NOT,
    NEQ,
    GTE,
    POSEIDON,
    SLOAD,
    SSTORE,
    TLOAD,
    TSTORE,
    SCCALL,
    SIGCHECK,
    EVENT,
}

/// Number of opcodes.
pub const NUM_OPCODES: usize = 27;

impl OlaOpcode {
    pub open spec fn shift_spec(self) -> u64 {
        match self {
            OlaOpcode::ADD => 31,
            OlaOpcode::MUL => 30,
            OlaOpcode::EQ => 29,
            OlaOpcode::ASSERT => 28,
            OlaOpcode::MOV => 27,
            OlaOpcode::JMP => 26,
            OlaOpcode::CJMP => 25,
            OlaOpcode::CALL => 24,
            OlaOpcode::RET => 23,
            OlaOpcode::MLOAD => 22,
            OlaOpcode::MSTORE => 21,
            OlaOpcode::END => 20,
            OlaOpcode::RC => 19,
            OlaOpcode::AND => 18,
            OlaOpcode::OR => 17,
            OlaOpcode::XOR => 16,
            OlaOpcode::NOT => 15,
            OlaOpcode::NEQ => 14,
            OlaOpcode::GTE => 13,
            OlaOpcode::POSEIDON => 12,
            OlaOpcode::SLOAD => 11,
            OlaOpcode::SSTORE => 10,
            OlaOpcode::TLOAD => 9,
            OlaOpcode::TSTORE => 8,
            OlaOpcode::SCCALL => 7,
            OlaOpcode::SIGCHECK => 6,
            OlaOpcode::EVENT => 5,
        }
    }

    pub open spec fn mask_spec(self) -> u64 {
        1u64 << self.shift_spec()
    }

    pub open spec fn token_spec(self) -> Seq<char> {
        match self {
            OlaOpcode::ADD => "add"@,
            OlaOpcode::MUL => "mul"@,
            OlaOpcode::EQ => "eq"@,
            OlaOpcode::ASSERT => "assert"@,
            OlaOpcode::MOV => "mov"@,
            OlaOpcode::JMP => "jmp"@,
            OlaOpcode::CJMP => "cjmp"@,
            OlaOpcode::CALL => "call"@,
            OlaOpcode::RET => "ret"@,
            OlaOpcode::MLOAD => "mload"@,
            OlaOpcode::MSTORE => "mstore"@,
            OlaOpcode::END => "end"@,
            OlaOpcode::RC => "range"@,
            OlaOpcode::AND => "and"@,
            OlaOpcode::OR => "or"@,
            OlaOpcode::XOR => "xor"@,
            OlaOpcode::NOT => "not"@,
            OlaOpcode::NEQ => "neq"@,
            OlaOpcode::GTE => "gte"@,
            OlaOpcode::POSEIDON => "poseidon"@,
            OlaOpcode::SLOAD => "sload"@,
            OlaOpcode::SSTORE => "sstore"@,
            OlaOpcode::TLOAD => "tload"@,
            OlaOpcode::TSTORE => "tstore"@,
            OlaOpcode::SCCALL => "sccall"@,
            OlaOpcode::SIGCHECK => "sigcheck"@,
            OlaOpcode::EVENT => "event"@,
        }
    }

    /// The opcode's bit in an instruction word.
    pub fn binary_bit_mask(&self) -> (r: u64)
        ensures
            r == self.mask_spec(),
    {
        let shift: u64 = match self {
            OlaOpcode::ADD => 31,
            OlaOpcode::MUL => 30,
            OlaOpcode::EQ => 29,
            OlaOpcode::ASSERT => 28,
            OlaOpcode::MOV => 27,
            OlaOpcode::JMP => 26,
            OlaOpcode::CJMP => 25,
            OlaOpcode::CALL => 24,
            OlaOpcode::RET => 23,
            OlaOpcode::MLOAD => 22,
            OlaOpcode::MSTORE => 21,
            OlaOpcode::END => 20,
            OlaOpcode::RC => 19,
            OlaOpcode::AND => 18,
            OlaOpcode::OR => 17,
            OlaOpcode::XOR => 16,
            OlaOpcode::NOT => 15,
            OlaOpcode::NEQ => 14,
            OlaOpcode::GTE => 13,
            OlaOpcode::POSEIDON => 12,
            OlaOpcode::SLOAD => 11,
            OlaOpcode::SSTORE => 10,
            OlaOpcode::TLOAD => 9,
            OlaOpcode::TSTORE => 8,
            OlaOpcode::SCCALL => 7,
            OlaOpcode::SIGCHECK => 6,
            OlaOpcode::EVENT => 5,
        };
        1u64 << shift
    }

    /// The opcode's assembly mnemonic.
    pub fn token(&self) -> (r: String)
        ensures
            r@ == self.token_spec(),
    {
        match self {
            OlaOpcode::ADD => String::from_str("add"),
            OlaOpcode::MUL => String::from_str("mul"),
            OlaOpcode::EQ => String::from_str("eq"),
            OlaOpcode::ASSERT => String::from_str("assert"),
            OlaOpcode::MOV => String::from_str("mov"),
            OlaOpcode::JMP => String::from_str("jmp"),
            OlaOpcode::CJMP => String::from_str("cjmp"),
            OlaOpcode::CALL => String::from_str("call"),
            OlaOpcode::RET => String::from_str("ret"),
            OlaOpcode::MLOAD => String::from_str("mload"),
            OlaOpcode::MSTORE => String::from_str("mstore"),
            OlaOpcode::END => String::from_str("end"),
            OlaOpcode::RC => String::from_str("range"),
            OlaOpcode::AND => String::from_str("and"),
            OlaOpcode::OR => String::from_str("or"),
            OlaOpcode::XOR => String::from_str("xor"),
            OlaOpcode::NOT => String::from_str("not"),
            OlaOpcode::NEQ => String::from_str("neq"),
            OlaOpcode::GTE => String::from_str("gte"),
            OlaOpcode::POSEIDON => String::from_str("poseidon"),
            OlaOpcode::SLOAD => String::from_str("sload"),
            OlaOpcode::SSTORE => String::from_str("sstore"),
            OlaOpcode::TLOAD => String::from_str("tload"),
            OlaOpcode::TSTORE => String::from_str("tstore"),
            OlaOpcode::SCCALL => String::from_str("sccall"),
            OlaOpcode::SIGCHECK => String::from_str("sigcheck"),
            OlaOpcode::EVENT => String::from_str("event"),
        }
    }

    /// The opcode at position `i` of the decoding order.
    pub open spec fn at(i: nat) -> OlaOpcode {
        if i == 0 {
            OlaOpcode::ADD
        } else if i == 1 {
            OlaOpcode::MUL
        } else if i == 2 {
            OlaOpcode::EQ
        } else if i == 3 {
            OlaOpcode::ASSERT
        } else if i == 4 {
            OlaOpcode::MOV
        } else if i == 5 {
            OlaOpcode::JMP
        } else if i == 6 {
            OlaOpcode::CJMP
        } else if i == 7 {
            OlaOpcode::CALL
        } else if i == 8 {
            OlaOpcode::RET
        } else if i == 9 {
            OlaOpcode::MLOAD
        } else if i == 10 {
            OlaOpcode::MSTORE
        } else if i == 11 {
            OlaOpcode::END
        } else if i == 12 {
            OlaOpcode::RC
        } else if i == 13 {
            OlaOpcode::AND
        } else if i == 14 {
            OlaOpcode::OR
        } else if i == 15 {
            OlaOpcode::XOR
        } else if i == 16 {
            OlaOpcode::NOT
        } else if i == 17 {
            OlaOpcode::NEQ
        } else if i == 18 {
            OlaOpcode::GTE
        } else if i == 19 {
            OlaOpcode::POSEIDON
        } else if i == 20 {
            OlaOpcode::SLOAD
        } else if i == 21 {
            OlaOpcode::SSTORE
        } else if i == 22 {
            OlaOpcode::TLOAD
        } else if i == 23 {
            OlaOpcode::TSTORE
        } else if i == 24 {
            OlaOpcode::SCCALL
        } else if i == 25 {
            OlaOpcode::SIGCHECK
        } else {
            OlaOpcode::EVENT
        }
    }

    /// The opcode at position `i` of the decoding order.
    pub fn from_index(i: usize) -> (r: Option<OlaOpcode>)
        ensures
            r is Some <==> i < NUM_OPCODES,
            r matches Some(op) ==> op == OlaOpcode::at(i as nat) && op.shift_spec() == 31 - i,
    {
        match i {
            0 => Some(OlaOpcode::ADD),
            1 => Some(OlaOpcode::MUL),
            2 => Some(OlaOpcode::EQ),
            3 => Some(OlaOpcode::ASSERT),
            4 => Some(OlaOpcode::MOV),
            5 => Some(OlaOpcode::JMP),
            6 => Some(OlaOpcode::CJMP),
            7 => Some(OlaOpcode::CALL),
            8 => Some(OlaOpcode::RET),
            9 => Some(OlaOpcode::MLOAD),
            10 => Some(OlaOpcode::MSTORE),
            11 => Some(OlaOpcode::END),
            12 => Some(OlaOpcode::RC),
            13 => Some(OlaOpcode::AND),
            14 => Some(OlaOpcode::OR),
            15 => Some(OlaOpcode::XOR),
            16 => Some(OlaOpcode::NOT),
            17 => Some(OlaOpcode::NEQ),
            18 => Some(OlaOpcode::GTE),
            19 => Some(OlaOpcode::POSEIDON),
            20 => Some(OlaOpcode::SLOAD),
            21 => Some(OlaOpcode::SSTORE),
            22 => Some(OlaOpcode::TLOAD),
            23 => Some(OlaOpcode::TSTORE),
            24 => Some(OlaOpcode::SCCALL),
            25 => Some(OlaOpcode::SIGCHECK),
            26 => Some(OlaOpcode::EVENT),
            _ => None,
        }
    }
}

/// The general-purpose registers.
#[derive(Clone, Copy, Debug, PartialEq, Eq, Structural)]
pub enum OlaRegister {
    R0,
    R1,
    R2,
    R3,
    R4,
    R5,
    R6,
    R7,
    R8,
    R9,
}

/// Number of general-purpose registers.
pub const NUM_REGISTERS: usize = 10;

impl OlaRegister {
    pub open spec fn index_spec(self) -> u64 {
        match self {
            OlaRegister::R0 => 0,
            OlaRegister::R1 => 1,
            OlaRegister::R2 => 2,
            OlaRegister::R3 => 3,
            OlaRegister::R4 => 4,
            OlaRegister::R5 => 5,
            OlaRegister::R6 => 6,
            OlaRegister::R7 => 7,
            OlaRegister::R8 => 8,
            OlaRegister::R9 => 9,
        }
    }

    pub open spec fn op0_mask_spec(self) -> u64 {
        1u64 << (61 - self.index_spec()) as u64
    }

    pub open spec fn op1_mask_spec(self) -> u64 {
        1u64 << (51 - self.index_spec()) as u64
    }

    pub open spec fn dst_mask_spec(self) -> u64 {
        1u64 << (41 - self.index_spec()) as u64
    }

    pub open spec fn token_spec(self) -> Seq<char> {
        match self {
            OlaRegister::R0 => "r0"@,
            OlaRegister::R1 => "r1"@,
            OlaRegister::R2 => "r2"@,
            OlaRegister::R3 => "r3"@,
            OlaRegister::R4 => "r4"@,
            OlaRegister::R5 => "r5"@,
            OlaRegister::R6 => "r6"@,
            OlaRegister::R7 => "r7"@,
            OlaRegister::R8 => "r8"@,
            OlaRegister::R9 => "r9"@,
        }
    }

    /// The register's number.
    pub fn index(&self) -> (r: u64)
        ensures
            r == self.index_spec(),
            r < NUM_REGISTERS,
    {
        match self {
            OlaRegister::R0 => 0,
            OlaRegister::R1 => 1,
            OlaRegister::R2 => 2,
            OlaRegister::R3 => 3,
            OlaRegister::R4 => 4,
            OlaRegister::R5 => 5,
            OlaRegister::R6 => 6,
            OlaRegister::R7 => 7,
            OlaRegister::R8 => 8,
            OlaRegister::R9 => 9,
        }
    }

    /// The register with number `i`.
    pub open spec fn at(i: nat) -> OlaRegister {
        if i == 0 {
            OlaRegister::R0
        } else if i == 1 {
            OlaRegister::R1
        } else if i == 2 {
            OlaRegister::R2
        } else if i == 3 {
            OlaRegister::R3
        } else if i == 4 {
            OlaRegister::R4
        } else if i == 5 {
            OlaRegister::R5
        } else if i == 6 {
            OlaRegister::R6
        } else if i == 7 {
            OlaRegister::R7
        } else if i == 8 {
            OlaRegister::R8
        } else {
            OlaRegister::R9
        }
    }

    /// The register with number `i`.
    pub fn from_index(i: usize) -> (r: Option<OlaRegister>)
        ensures
            r is Some <==> i < NUM_REGISTERS,
            r matches Some(reg) ==> reg == OlaRegister::at(i as nat) && reg.index_spec() == i,
    {
        match i {
            0 => Some(OlaRegister::R0),
            1 => Some(OlaRegister::R1),
            2 => Some(OlaRegister::R2),
            3 => Some(OlaRegister::R3),
            4 => Some(OlaRegister::R4),
            5 => Some(OlaRegister::R5),
            6 => Some(OlaRegister::R6),
            7 => Some(OlaRegister::R7),
            8 => Some(OlaRegister::R8),
            9 => Some(OlaRegister::R9),
            _ => None,
        }
    }

    /// The register's bit as operand op0.
    pub fn binary_bit_mask_as_op0(&self) -> (r: u64)
        ensures
            r == self.op0_mask_spec(),
    {
        1u64 << (61 - self.index())
    }

    /// The register's bit as operand op1.
    pub fn binary_bit_mask_as_op1(&self) -> (r: u64)
        ensures
            r == self.op1_mask_spec(),
    {
        1u64 << (51 - self.index())
    }

    /// The register's bit as destination.
    pub fn binary_bit_mask_as_dst(&self) -> (r: u64)
        ensures
            r == self.dst_mask_spec(),
    {
        1u64 << (41 - self.index())
    }

    /// The register's assembly name.
    pub fn token(&self) -> (r: String)
        ensures
            r@ == self.token_spec(),
    {
        match self {
            OlaRegister::R0 => String::from_str("r0"),
            OlaRegister::R1 => String::from_str("r1"),
            OlaRegister::R2 => String::from_str("r2"),
            OlaRegister::R3 => String::from_str("r3"),
            OlaRegister::R4 => String::from_str("r4"),
            OlaRegister::R5 => String::from_str("r5"),
            OlaRegister::R6 => String::from_str("r6"),
            OlaRegister::R7 => String::from_str("r7"),
            OlaRegister::R8 => String::from_str("r8"),
            OlaRegister::R9 => String::from_str("r9"),
        }
    }
}

/// Registers that only some instructions can read.
#[derive(Clone, Copy, Debug, PartialEq, Eq, Structural)]
#[allow(clippy::upper_case_acronyms)]
pub enum OlaSpecialRegister {
    PC,
    PSP,
}

impl OlaSpecialRegister {
    pub open spec fn token_spec(self) -> Seq<char> {
        match self {
            OlaSpecialRegister::PC => "pc"@,
            OlaSpecialRegister::PSP => "psp"@,
        }
    }

    /// The register's assembly name.
    pub fn token(&self) -> (r: String)
        ensures
            r@ == self.token_spec(),
    {
        match self {
            OlaSpecialRegister::PC => String::from_str("pc"),
            OlaSpecialRegister::PSP => String::from_str("psp"),
        }
    }
}

/// An immediate value, as the hexadecimal text it is written in.
#[derive(Clone, Debug)]
pub struct ImmediateValue {
    pub hex: String,
}

/// An instruction operand.
#[derive(Clone, Debug)]
pub enum OlaOperand {
    ImmediateOperand { value: ImmediateValue },
    RegisterOperand { register: OlaRegister },
    RegisterWithOffset { register: OlaRegister, offset: ImmediateValue },
    RegisterWithFactor { register: OlaRegister, factor: ImmediateValue },
    SpecialReg { special_reg: OlaSpecialRegister },
}

impl OlaOperand {
    pub open spec fn asm_token_spec(&self) -> Seq<char> {
        match self {
            OlaOperand::ImmediateOperand { value } => value.hex@,
            OlaOperand::RegisterOperand { register } => register.token_spec(),
            OlaOperand::RegisterWithOffset { register, offset } => register.token_spec() + ","@ + offset.hex@,
            OlaOperand::RegisterWithFactor { register, factor } => register.token_spec() + ","@ + factor.hex@,
            OlaOperand::SpecialReg { special_reg } => special_reg.token_spec(),
        }
    }

    /// The operand as written in assembly.
    pub fn get_asm_token(&self) -> (r: String)
        ensures
            r@ == self.asm_token_spec(),
    {
        match self {
            OlaOperand::ImmediateOperand { value } => value.hex.clone(),
            OlaOperand::RegisterOperand { register } => register.token(),
            OlaOperand::RegisterWithOffset { register, offset } => {
                let mut s = register.token();
                s.append(",");
                s.append(offset.hex.as_str());
                s
            },
            OlaOperand::RegisterWithFactor { register, factor } => {
                let mut s = register.token();
                s.append(",");
                s.append(factor.hex.as_str());
                s
            },
            OlaOperand::SpecialReg { special_reg } => special_reg.token(),
        }
    }
}

} // verus!
