//! Programs in their binary form: instructions encoded as hexadecimal words,
//! with the prophets (host-computed hints) they carry.
use crate::hex::{hex16, hex16_spec, parse_hex_spec, parse_hex_u64, strip_hex_prefix};
use crate::vm::{ImmediateValue, OlaOpcode, OlaOperand, OlaRegister, OlaSpecialRegister, NUM_OPCODES, NUM_REGISTERS};
use vstd::prelude::*;

verus! {

/// One input of a prophet.
#[derive(Clone, Debug)]
pub struct OlaProphetInput {
    pub name: String,
    pub length: usize,
    pub is_ref: bool,
    pub is_input_output: bool,
}

/// One output of a prophet.
#[derive(Clone, Debug)]
pub struct OlaProphetOutput {
    pub name: String,
    pub length: usize,
    pub is_ref: bool,
    pub is_input_output: bool,
}

/// A hint computed by the host at a given instruction: its source code, its
/// context values, and where its inputs and outputs live.
#[derive(Clone, Debug)]
pub struct OlaProphet {
    pub host: usize,
    pub code: String,
    pub ctx: Vec<(String, u64)>,
    pub inputs: Vec<OlaProphetInput>,
    pub outputs: Vec<OlaProphetOutput>,
}

/// An instruction before encoding.
#[derive(Clone, Debug)]
pub struct BinaryInstruction {
    pub opcode: OlaOpcode,
    pub op0: Option<OlaOperand>,
    pub op1: Option<OlaOperand>,
    pub dst: Option<OlaOperand>,
    pub prophet: Option<OlaProphet>,
}

/// A program: its encoded words, one per line, and its prophets.
#[derive(Clone, Debug)]
pub struct BinaryProgram {
    pub bytecode: String,
    pub prophets: Vec<OlaProphet>,
    pub debug_info: Option<std::collections::BTreeMap<usize, String>>,
}

/// Why an instruction cannot be encoded.
#[derive(Clone, Copy, Debug, PartialEq, Eq, Structural)]
pub enum EncodeError {
    /// op0 cannot be an immediate value.
    Op0Immediate,
    /// op0 cannot be a special register.
    Op0SpecialReg,
    /// op0 cannot be a register with a factor.
    Op0RegWithFactor,
    /// A special register as op1 is only supported by `mov`.
    SpecialRegNotMov,
    /// dst cannot be an immediate value.
    DstImmediate,
    /// dst cannot be a special register.
    DstSpecialReg,
    /// dst cannot be a register with a factor.
    DstRegWithFactor,
}

/// Why an encoded word could not be read back.
#[derive(Clone, Copy, Debug, PartialEq, Eq, Structural)]
pub enum ParseError {
    /// The instruction could not be encoded.
    Encode(EncodeError),
    /// A line is not a hexadecimal 64-bit word.
    InvalidWord,
}

/// Bit that marks op1 as an immediate value.
pub const BIT_SHIFT_OP1_IMM: u64 = 62;

pub open spec fn op0_error(op: Option<OlaOperand>) -> Option<EncodeError> {
    match op {
        Some(OlaOperand::ImmediateOperand { .. }) => Some(EncodeError::Op0Immediate),
        Some(OlaOperand::SpecialReg { .. }) => Some(EncodeError::Op0SpecialReg),
        Some(OlaOperand::RegisterWithFactor { .. }) => Some(EncodeError::Op0RegWithFactor),
        _ => None,
    }
}

pub open spec fn op1_error(opcode: OlaOpcode, op: Option<OlaOperand>) -> Option<EncodeError> {
    match op {
        Some(OlaOperand::SpecialReg { .. }) => if opcode != OlaOpcode::MOV {
            Some(EncodeError::SpecialRegNotMov)
        } else {
            None
        },
        _ => None,
    }
}

pub open spec fn dst_error(op: Option<OlaOperand>) -> Option<EncodeError> {
    match op {
        Some(OlaOperand::ImmediateOperand { .. }) => Some(EncodeError::DstImmediate),
        Some(OlaOperand::SpecialReg { .. }) => Some(EncodeError::DstSpecialReg),
        Some(OlaOperand::RegisterWithFactor { .. }) => Some(EncodeError::DstRegWithFactor),
        _ => None,
    }
}

pub open spec fn op0_bits(op: Option<OlaOperand>) -> u64 {
    match op {
        Some(OlaOperand::RegisterOperand { register }) => register.op0_mask_spec(),
        Some(OlaOperand::RegisterWithOffset { register, .. }) => register.op0_mask_spec(),
        _ => 0,
    }
}

pub open spec fn op1_bits(op: Option<OlaOperand>) -> u64 {
    match op {
        Some(OlaOperand::RegisterOperand { register }) => register.op1_mask_spec(),
        Some(OlaOperand::RegisterWithOffset { register, .. }) => register.op1_mask_spec(),
        Some(OlaOperand::RegisterWithFactor { register, .. }) => register.op1_mask_spec(),
        _ => 0,
    }
}

pub open spec fn dst_bits(op: Option<OlaOperand>) -> u64 {
    match op {
        Some(OlaOperand::RegisterOperand { register }) => register.dst_mask_spec(),
        Some(OlaOperand::RegisterWithOffset { register, .. }) => register.dst_mask_spec(),
        _ => 0,
    }
}

/// The immediate value that an operand in position op0 or dst contributes.
pub open spec fn offset_imm(op: Option<OlaOperand>) -> Option<Seq<char>> {
    match op {
        Some(OlaOperand::RegisterWithOffset { offset, .. }) => Some(offset.hex@),
        _ => None,
    }
}

/// The immediate value that an operand in position op1 contributes.
pub open spec fn op1_imm(op: Option<OlaOperand>) -> Option<Seq<char>> {
    match op {
        Some(OlaOperand::ImmediateOperand { value }) => Some(value.hex@),
        Some(OlaOperand::RegisterWithOffset { offset, .. }) => Some(offset.hex@),
        Some(OlaOperand::RegisterWithFactor { factor, .. }) => Some(factor.hex@),
        _ => None,
    }
}

pub open spec fn op1_is_imm(op: Option<OlaOperand>) -> bool {
    op matches Some(OlaOperand::ImmediateOperand { .. })
}

pub open spec fn or_else(later: Option<Seq<char>>, earlier: Option<Seq<char>>) -> Option<Seq<char>> {
    match later {
        Some(v) => Some(v),
        None => earlier,
    }
}

impl BinaryInstruction {
    /// The first operand that cannot be encoded, checking op0, op1, then dst.
    pub open spec fn encode_error(&self) -> Option<EncodeError> {
        match op0_error(self.op0) {
            Some(e) => Some(e),
            None => match op1_error(self.opcode, self.op1) {
                Some(e) => Some(e),
                None => dst_error(self.dst),
            },
        }
    }

    /// The instruction word: the operands' register bits, the immediate flag
    /// of op1 and the opcode's bit.
    pub open spec fn word_spec(&self) -> u64 {
        let flag: u64 = if op1_is_imm(self.op1) { 1u64 << BIT_SHIFT_OP1_IMM } else { 0 };
        ((((0u64 | op0_bits(self.op0)) | op1_bits(self.op1)) | dst_bits(self.dst)) | flag) | self.opcode.mask_spec()
    }

    /// The immediate line: of dst, else of op1, else of op0.
    pub open spec fn imm_spec(&self) -> Option<Seq<char>> {
        or_else(offset_imm(self.dst), or_else(op1_imm(self.op1), offset_imm(self.op0)))
    }

    /// The encoded lines: the word in hexadecimal, then the immediate value if any.
    pub open spec fn encoded_spec(&self) -> Seq<Seq<char>> {
        match self.imm_spec() {
            Some(v) => seq![hex16_spec(self.word_spec()), v],
            None => seq![hex16_spec(self.word_spec())],
        }
    }

    pub open spec fn binary_length_spec(&self) -> u8 {
        if self.opcode == OlaOpcode::MLOAD || self.opcode == OlaOpcode::MSTORE {
            2
        } else {
            match self.op1 {
                Some(OlaOperand::ImmediateOperand { .. }) => 2,
                Some(OlaOperand::RegisterWithOffset { .. }) => 2,
                Some(OlaOperand::RegisterWithFactor { .. }) => 2,
                _ => 1,
            }
        }
    }

    /// The number of words the instruction takes: two for memory accesses and
    /// where op1 carries an immediate value, else one.
    pub fn binary_length(&self) -> (r: u8)
        ensures
            r == self.binary_length_spec(),
    {
        if self.opcode == OlaOpcode::MLOAD || self.opcode == OlaOpcode::MSTORE {
            2
        } else {
            let mut len: u8 = 1;
            len += match self.op1 {
                Some(OlaOperand::ImmediateOperand { .. })
                | Some(OlaOperand::RegisterWithOffset { .. })
                | Some(OlaOperand::RegisterWithFactor { .. }) => 1,
                _ => 0,
            };
            len
        }
    }

    /// Encodes the instruction as one hexadecimal word, followed by its
    /// immediate value when it has one.
    pub fn encode(&self) -> (r: Result<Vec<String>, EncodeError>)
        ensures
            match r {
                Ok(codes) => self.encode_error() is None && codes@.len() == self.encoded_spec().len() && forall|k: int|
                    0 <= k < codes@.len() ==> (#[trigger] codes@[k])@ == self.encoded_spec()[k],
                Err(e) => self.encode_error() == Some(e),
            },
    {
        let mut instruction_u64: u64 = 0;
        let mut imm: Option<String> = None;
        let mut is_op1_imm = false;

        let op0_mask: u64 = match &self.op0 {
            Some(OlaOperand::ImmediateOperand { .. }) => return Err(EncodeError::Op0Immediate),
            Some(OlaOperand::RegisterOperand { register }) => register.binary_bit_mask_as_op0(),
            Some(OlaOperand::RegisterWithOffset { register, offset }) => {
                imm = Some(offset.hex.clone());
                register.binary_bit_mask_as_op0()
            },
            Some(OlaOperand::SpecialReg { .. }) => return Err(EncodeError::Op0SpecialReg),
            Some(OlaOperand::RegisterWithFactor { .. }) => return Err(EncodeError::Op0RegWithFactor),
            None => 0,
        };
        instruction_u64 = instruction_u64 | op0_mask;
        let op1_mask: u64 = match &self.op1 {
            Some(OlaOperand::ImmediateOperand { value }) => {
                is_op1_imm = true;
                imm = Some(value.hex.clone());
                0
            },
            Some(OlaOperand::RegisterOperand { register }) => register.binary_bit_mask_as_op1(),
            Some(OlaOperand::RegisterWithOffset { register, offset }) => {
                imm = Some(offset.hex.clone());
                register.binary_bit_mask_as_op1()
            },
            Some(OlaOperand::SpecialReg { .. }) => {
                if self.opcode != OlaOpcode::MOV {
                    return Err(EncodeError::SpecialRegNotMov);
                }
                0
            },
            Some(OlaOperand::RegisterWithFactor { register, factor }) => {
                imm = Some(factor.hex.clone());
                register.binary_bit_mask_as_op1()
            },
            None => 0,
        };
        instruction_u64 = instruction_u64 | op1_mask;
        let dst_mask: u64 = match &self.dst {
            Some(OlaOperand::ImmediateOperand { .. }) => return Err(EncodeError::DstImmediate),
            Some(OlaOperand::RegisterOperand { register }) => register.binary_bit_mask_as_dst(),
            Some(OlaOperand::RegisterWithOffset { register, offset }) => {
                imm = Some(offset.hex.clone());
                register.binary_bit_mask_as_dst()
            },
            Some(OlaOperand::SpecialReg { .. }) => return Err(EncodeError::DstSpecialReg),
            Some(OlaOperand::RegisterWithFactor { .. }) => return Err(EncodeError::DstRegWithFactor),
            None => 0,
        };
        instruction_u64 = instruction_u64 | dst_mask;

        let flag: u64 = if is_op1_imm { 1u64 << BIT_SHIFT_OP1_IMM } else { 0 };
        instruction_u64 = instruction_u64 | flag;
        instruction_u64 = instruction_u64 | self.opcode.binary_bit_mask();
        let mut codes: Vec<String> = Vec::new();
        codes.push(hex16(instruction_u64));
        match imm {
            Some(v) => codes.push(v),
            None => {},
        }
        assert(codes@.len() == self.encoded_spec().len());
        Ok(codes)
    }
}

/// The value of one line of bytecode: hexadecimal after any `0x` prefixes.
pub open spec fn parse_line(l: Seq<char>) -> Option<u64> {
    parse_hex_spec(strip_hex_prefix(l))
}

/// `s` cut at every newline, as `str::split('\n')` does: `n` newlines give
/// `n + 1` pieces, some of which may be empty.
pub open spec fn split_lines(s: Seq<char>) -> Seq<Seq<char>>
    decreases s.len(),
{
    if s.len() == 0 {
        seq![Seq::<char>::empty()]
    } else {
        let prev = split_lines(s.drop_last());
        if s.last() == '\n' {
            prev.push(Seq::<char>::empty())
        } else {
            prev.update(prev.len() - 1, prev.last().push(s.last()))
        }
    }
}

proof fn lemma_split_lines_nonempty(s: Seq<char>)
    ensures
        split_lines(s).len() >= 1,
    decreases s.len(),
{
    if s.len() > 0 {
        lemma_split_lines_nonempty(s.drop_last());
    }
}

/// Lines joined with newlines between them.
pub open spec fn join_lines(lines: Seq<Seq<char>>) -> Seq<char>
    decreases lines.len(),
{
    if lines.len() == 0 {
        Seq::empty()
    } else if lines.len() == 1 {
        lines[0]
    } else {
        join_lines(lines.drop_last()) + seq!['\n'] + lines.last()
    }
}

/// The encoded lines of a list of instructions, in order.
pub open spec fn all_lines(insts: Seq<BinaryInstruction>) -> Seq<Seq<char>>
    decreases insts.len(),
{
    if insts.len() == 0 {
        Seq::empty()
    } else {
        all_lines(insts.drop_last()) + insts.last().encoded_spec()
    }
}

/// The prophets that a list of instructions carries, in order.
pub open spec fn prophets_of(insts: Seq<BinaryInstruction>) -> Seq<OlaProphet>
    decreases insts.len(),
{
    if insts.len() == 0 {
        Seq::empty()
    } else {
        match insts.last().prophet {
            Some(p) => prophets_of(insts.drop_last()).push(p),
            None => prophets_of(insts.drop_last()),
        }
    }
}

/// Each instruction up to `k` can be encoded.
pub open spec fn all_encodable(insts: Seq<BinaryInstruction>, k: int) -> bool {
    forall|j: int| 0 <= j < k ==> (#[trigger] insts[j]).encode_error() is None
}

impl BinaryInstruction {
    /// Reads a line of bytecode: hexadecimal after any `0x` prefixes.
    pub fn parse_u64_from_string(s: String) -> (r: Result<u64, ParseError>)
        ensures
            r == match parse_line(s@) {
                Some(v) => Ok::<u64, ParseError>(v),
                None => Err(ParseError::InvalidWord),
            },
    {
        match parse_hex_u64(s.as_str()) {
            Some(v) => Ok(v),
            None => Err(ParseError::InvalidWord),
        }
    }

    /// The instruction word and the value of the immediate line, if any.
    pub fn get_inst_imm_u64(&self) -> (r: Result<(u64, Option<u64>), ParseError>)
        ensures
            r == match self.encode_error() {
                Some(e) => Err(ParseError::Encode(e)),
                None => match self.imm_spec() {
                    None => Ok((self.word_spec(), None)),
                    Some(v) => match parse_line(v) {
                        Some(x) => Ok((self.word_spec(), Some(x))),
                        None => Err(ParseError::InvalidWord),
                    },
                },
            },
    {
        proof {
            crate::hex::lemma_hex16_round_trip(self.word_spec());
        }
        match self.encode() {
            Ok(res) => {
                let inst = Self::parse_u64_from_string(res[0].clone())?;
                let imm = if res.len() > 1 {
                    let value = Self::parse_u64_from_string(res[1].clone())?;
                    Some(value)
                } else {
                    None
                };
                Ok((inst, imm))
            },
            Err(e) => Err(ParseError::Encode(e)),
        }
    }
}

impl BinaryProgram {
    /// Encodes the instructions one after the other, one word per line, and
    /// collects their prophets. Debug information is kept only when
    /// `debug_flag` is set. Fails with the error of the first instruction that
    /// cannot be encoded.
    pub fn from_instructions(
        instructions: Vec<BinaryInstruction>,
        debug_info: Option<std::collections::BTreeMap<usize, String>>,
        debug_flag: bool,
    ) -> (r: Result<BinaryProgram, EncodeError>)
        ensures
            r is Ok <==> all_encodable(instructions@, instructions@.len() as int),
            match r {
                Ok(p) => {
                    &&& p.bytecode@ == join_lines(all_lines(instructions@))
                    &&& p.prophets@ == prophets_of(instructions@)
                    &&& p.debug_info == (if debug_flag { debug_info } else { None })
                },
                Err(e) => exists|j: int|
                    0 <= j < instructions@.len() && all_encodable(instructions@, j) && #[trigger] instructions@[j].encode_error()
                        == Some(e),
            },
    {
        let ghost orig = instructions@;
        let mut insts = instructions;
        let mut prophets: Vec<OlaProphet> = Vec::new();
        let mut bytecode = String::new();
        let mut has_lines = false;
        let mut i: usize = 0;
        while i < insts.len()
            invariant
                insts@.len() == orig.len(),
                orig == instructions@,
                i <= orig.len(),
                forall|k: int| i <= k < orig.len() ==> #[trigger] insts@[k] == orig[k],
                all_encodable(orig, i as int),
                prophets@ == prophets_of(orig.subrange(0, i as int)),
                has_lines == (all_lines(orig.subrange(0, i as int)).len() > 0),
                bytecode@ == join_lines(all_lines(orig.subrange(0, i as int))),
            decreases orig.len() - i,
        {
            let mut instruction = BinaryInstruction {
                opcode: OlaOpcode::END,
                op0: None,
                op1: None,
                dst: None,
                prophet: None,
            };
            insts.set_and_swap(i, &mut instruction);
            assert(instruction == orig[i as int]);
            let ghost prefix = orig.subrange(0, i as int);
            let ghost next = orig.subrange(0, i + 1);
            assert(next.drop_last() =~= prefix);
            let encoded = match instruction.encode() {
                Ok(codes) => codes,
                Err(e) => {
                    assert(orig[i as int].encode_error() == Some(e));
                    assert(!all_encodable(orig, orig.len() as int));
                    return Err(e);
                },
            };
            let mut k: usize = 0;
            while k < encoded.len()
                invariant
                    k <= encoded@.len(),
                    encoded@.len() == instruction.encoded_spec().len(),
                    forall|m: int| 0 <= m < encoded@.len() ==> (#[trigger] encoded@[m])@ == instruction.encoded_spec()[m],
                    has_lines == (all_lines(prefix).len() + k > 0),
                    bytecode@ == join_lines(all_lines(prefix) + instruction.encoded_spec().subrange(0, k as int)),
                decreases encoded.len() - k,
            {
                let ghost lines = all_lines(prefix) + instruction.encoded_spec().subrange(0, k as int);
                let ghost lines2 = all_lines(prefix) + instruction.encoded_spec().subrange(0, k + 1);
                assert(lines2.drop_last() =~= lines);
                if has_lines {
                    bytecode.append("\n");
                    proof {
                        reveal_strlit("\n");
                    }
                } else {
                    assert(lines.len() == 0);
                    assert(bytecode@ =~= Seq::<char>::empty());
                }
                bytecode.append(encoded[k].as_str());
                assert(bytecode@ =~= join_lines(lines2));
                has_lines = true;
                k = k + 1;
            }
            assert(instruction.encoded_spec().subrange(0, k as int) =~= instruction.encoded_spec());
            match instruction.prophet {
                Some(prophet) => prophets.push(prophet),
                None => {},
            }
            i = i + 1;
        }
        assert(orig.subrange(0, orig.len() as int) =~= orig);
        let kept = if debug_flag { debug_info } else { None };
        Ok(BinaryProgram { bytecode, prophets, debug_info: kept })
    }

    /// Reads every line of the bytecode as a hexadecimal word.
    pub fn bytecode_u64s(&self) -> (r: Result<Vec<u64>, ParseError>)
        ensures
            r is Ok <==> forall|k: int| 0 <= k < split_lines(self.bytecode@).len() ==> (#[trigger] parse_line(
                split_lines(self.bytecode@)[k],
            )) is Some,
            match r {
                Ok(v) => v@.len() == split_lines(self.bytecode@).len() && forall|k: int|
                    0 <= k < v@.len() ==> Some(#[trigger] v@[k]) == parse_line(split_lines(self.bytecode@)[k]),
                Err(e) => e == ParseError::InvalidWord,
            },
    {
        let s = self.bytecode.as_str();
        let n = s.unicode_len();
        let mut u64s: Vec<u64> = Vec::new();
        let ghost mut done: Seq<Seq<char>> = Seq::empty();
        let mut start: usize = 0;
        let mut i: usize = 0;
        assert(s@.subrange(0, 0) =~= Seq::<char>::empty());
        assert(split_lines(Seq::<char>::empty()) =~= done.push(s@.subrange(0, 0)));
        while i < n
            invariant
                n == s@.len(),
                s@ == self.bytecode@,
                start <= i <= n,
                split_lines(s@.subrange(0, i as int)) =~= done.push(s@.subrange(start as int, i as int)),
                u64s@.len() == done.len(),
                forall|k: int| 0 <= k < done.len() ==> Some(#[trigger] u64s@[k]) == parse_line(done[k]),
            decreases n - i,
        {
            let c = s.get_char(i);
            assert(s@.subrange(0, i + 1).drop_last() =~= s@.subrange(0, i as int));
            if c == '\n' {
                let line = s.substring_char(start, i);
                match parse_hex_u64(line) {
                    Some(v) => u64s.push(v),
                    None => {
                        proof {
                            assert(s@.subrange(0, i + 1).last() == c);
                            assert(split_lines(s@.subrange(0, i + 1)) =~= done.push(s@.subrange(start as int, i as int)).push(Seq::<char>::empty()));
                            lemma_split_prefix(s@, i as int + 1, done.len() as int);
                            assert(parse_line(split_lines(s@)[done.len() as int]) is None);
                        }
                        return Err(ParseError::InvalidWord);
                    },
                }
                proof {
                    done = done.push(s@.subrange(start as int, i as int));
                }
                start = i + 1;
                assert(s@.subrange(start as int, i + 1) =~= Seq::<char>::empty());
            } else {
                assert(s@.subrange(start as int, i + 1) =~= s@.subrange(start as int, i as int).push(c));
            }
            i = i + 1;
        }
        assert(s@.subrange(0, n as int) =~= s@);
        let ghost lines = done.push(s@.subrange(start as int, n as int));
        assert(split_lines(s@) =~= lines);
        let line = s.substring_char(start, n);
        match parse_hex_u64(line) {
            Some(v) => u64s.push(v),
            None => {
                assert(parse_line(split_lines(s@)[done.len() as int]) is None);
                return Err(ParseError::InvalidWord);
            },
        }
        assert forall|k: int| 0 <= k < split_lines(self.bytecode@).len() implies (#[trigger] parse_line(
            split_lines(self.bytecode@)[k],
        )) is Some by {
            assert(Some(u64s@[k]) == parse_line(lines[k]));
        }
        Ok(u64s)
    }
}

/// The pieces of a prefix of `s` that end before the prefix does are pieces of `s`.
proof fn lemma_split_prefix(s: Seq<char>, i: int, k: int)
    requires
        0 <= i <= s.len(),
        0 <= k < split_lines(s.subrange(0, i)).len() - 1,
    ensures
        k < split_lines(s).len(),
        split_lines(s)[k] == split_lines(s.subrange(0, i))[k],
    decreases s.len() - i,
{
    if i < s.len() {
        let p = s.subrange(0, i + 1);
        assert(p.drop_last() =~= s.subrange(0, i));
        lemma_split_prefix(s, i + 1, k);
    } else {
        assert(s.subrange(0, i) =~= s);
    }
}

/// The assembly text of a present operand.
pub open spec fn token_of(op: Option<OlaOperand>) -> Seq<char> {
    match op {
        Some(o) => o.asm_token_spec(),
        None => Seq::empty(),
    }
}

fn token_exec(op: &Option<OlaOperand>) -> (r: String)
    requires
        op is Some,
    ensures
        r@ == token_of(*op),
{
    match op {
        Some(o) => o.get_asm_token(),
        None => String::new(),
    }
}

impl BinaryInstruction {
    /// The operands that the instruction's assembly form shows are present.
    pub open spec fn has_asm_operands(&self) -> bool {
        match self.opcode {
            OlaOpcode::ADD | OlaOpcode::MUL | OlaOpcode::AND | OlaOpcode::OR | OlaOpcode::XOR | OlaOpcode::EQ | OlaOpcode::NEQ | OlaOpcode::GTE | OlaOpcode::TLOAD | OlaOpcode::POSEIDON => self.dst is Some && self.op0 is Some && self.op1 is Some,
            OlaOpcode::MOV | OlaOpcode::NOT | OlaOpcode::SIGCHECK => self.dst is Some && self.op1 is Some,
            OlaOpcode::MLOAD | OlaOpcode::MSTORE => self.dst is Some && self.op0 is Some && self.op1 is Some,
            OlaOpcode::CJMP | OlaOpcode::SCCALL | OlaOpcode::SLOAD | OlaOpcode::SSTORE | OlaOpcode::TSTORE | OlaOpcode::EVENT => self.op0 is Some && self.op1 is Some,
            OlaOpcode::JMP | OlaOpcode::CALL | OlaOpcode::RC | OlaOpcode::ASSERT => self.op1 is Some,
            OlaOpcode::RET | OlaOpcode::END => true,
        }
    }

    /// The assembly form: the mnemonic, then the operands that the opcode
    /// takes, memory operands written `[anchor+offset]`.
    pub open spec fn asm_spec(&self) -> Seq<char> {
        let t = self.opcode.token_spec();
        match self.opcode {
            OlaOpcode::ADD | OlaOpcode::MUL | OlaOpcode::AND | OlaOpcode::OR | OlaOpcode::XOR | OlaOpcode::EQ | OlaOpcode::NEQ | OlaOpcode::GTE | OlaOpcode::TLOAD | OlaOpcode::POSEIDON => t + " "@ + token_of(self.dst) + " "@ + token_of(self.op0) + " "@ + token_of(self.op1),
            OlaOpcode::MOV | OlaOpcode::NOT | OlaOpcode::SIGCHECK => t + " "@ + token_of(self.dst) + " "@ + token_of(self.op1),
            OlaOpcode::MLOAD => t + " "@ + token_of(self.dst) + " ["@ + token_of(self.op0) + "+"@ + token_of(self.op1) + "]"@,
            OlaOpcode::MSTORE => t + " ["@ + token_of(self.op0) + "+"@ + token_of(self.op1) + "] "@ + token_of(self.dst),
            OlaOpcode::CJMP | OlaOpcode::SCCALL | OlaOpcode::SLOAD | OlaOpcode::SSTORE | OlaOpcode::TSTORE | OlaOpcode::EVENT => t + " "@ + token_of(self.op0) + " "@ + token_of(self.op1),
            OlaOpcode::JMP | OlaOpcode::CALL | OlaOpcode::RC | OlaOpcode::ASSERT => t + " "@ + token_of(self.op1),
            OlaOpcode::RET | OlaOpcode::END => t,
        }
    }

    /// The instruction in assembly.
    pub fn get_asm_form_code(&self) -> (r: String)
        requires
            self.has_asm_operands(),
        ensures
            r@ == self.asm_spec(),
    {
        let mut s = self.opcode.token();
        match self.opcode {
            OlaOpcode::ADD | OlaOpcode::MUL | OlaOpcode::AND | OlaOpcode::OR | OlaOpcode::XOR | OlaOpcode::EQ | OlaOpcode::NEQ | OlaOpcode::GTE | OlaOpcode::TLOAD | OlaOpcode::POSEIDON => {
                s.append(" ");
                s.append(token_exec(&self.dst).as_str());
                s.append(" ");
                s.append(token_exec(&self.op0).as_str());
                s.append(" ");
                s.append(token_exec(&self.op1).as_str());
            },
            OlaOpcode::MOV | OlaOpcode::NOT | OlaOpcode::SIGCHECK => {
                s.append(" ");
                s.append(token_exec(&self.dst).as_str());
                s.append(" ");
                s.append(token_exec(&self.op1).as_str());
            },
            OlaOpcode::MLOAD => {
                let anchor = token_exec(&self.op0);
                let offset = token_exec(&self.op1);
                let dst_reg = token_exec(&self.dst);
                s.append(" ");
                s.append(dst_reg.as_str());
                s.append(" [");
                s.append(anchor.as_str());
                s.append("+");
                s.append(offset.as_str());
                s.append("]");
            },
            OlaOpcode::MSTORE => {
                let anchor = token_exec(&self.op0);
                let offset = token_exec(&self.op1);
                let value_reg = token_exec(&self.dst);
                s.append(" [");
                s.append(anchor.as_str());
                s.append("+");
                s.append(offset.as_str());
                s.append("] ");
                s.append(value_reg.as_str());
            },
            OlaOpcode::CJMP | OlaOpcode::SCCALL | OlaOpcode::SLOAD | OlaOpcode::SSTORE | OlaOpcode::TSTORE | OlaOpcode::EVENT => {
                s.append(" ");
                s.append(token_exec(&self.op0).as_str());
                s.append(" ");
                s.append(token_exec(&self.op1).as_str());
            },
            OlaOpcode::JMP | OlaOpcode::CALL | OlaOpcode::RC | OlaOpcode::ASSERT => {
                s.append(" ");
                s.append(token_exec(&self.op1).as_str());
            },
            OlaOpcode::RET | OlaOpcode::END => {},
        }
        s
    }
}

/// Why lines of bytecode do not decode to an instruction.
#[derive(Clone, Copy, Debug, PartialEq, Eq, Structural)]
pub enum DecodeError {
    /// No line was given.
    EmptyCode,
    /// The first line is not a hexadecimal word.
    InvalidWord,
    /// No opcode bit is set in the word.
    NoOpcode,
    /// The number of lines differs from what the word calls for.
    LengthMismatch,
    /// The immediate line is not a hexadecimal word.
    InvalidImmediate,
    /// A memory access names no destination register.
    NoDstRegister,
    /// A memory access names no anchor register.
    NoOp0Register,
    /// A memory access with a register offset names no offset register.
    NoOp1Register,
}

/// The operand positions of a register.
#[derive(Clone, Copy, Debug, PartialEq, Eq, Structural)]
pub enum OperandRole {
    Op0,
    Op1,
    Dst,
}

pub open spec fn role_mask(reg: OlaRegister, role: OperandRole) -> u64 {
    match role {
        OperandRole::Op0 => reg.op0_mask_spec(),
        OperandRole::Op1 => reg.op1_mask_spec(),
        OperandRole::Dst => reg.dst_mask_spec(),
    }
}

/// The first opcode, from position `i` of the decoding order on, whose bit is set in `w`.
pub open spec fn first_opcode_from(w: u64, i: nat) -> Option<OlaOpcode>
    decreases NUM_OPCODES - i,
{
    if i >= NUM_OPCODES {
        None
    } else if w & OlaOpcode::at(i).mask_spec() != 0 {
        Some(OlaOpcode::at(i))
    } else {
        first_opcode_from(w, i + 1)
    }
}

/// The first register, from number `i` on, whose bit for `role` is set in `w`.
pub open spec fn first_register_from(w: u64, role: OperandRole, i: nat) -> Option<OlaRegister>
    decreases NUM_REGISTERS - i,
{
    if i >= NUM_REGISTERS {
        None
    } else if w & role_mask(OlaRegister::at(i), role) != 0 {
        Some(OlaRegister::at(i))
    } else {
        first_register_from(w, role, i + 1)
    }
}

pub open spec fn word_is_op1_imm(w: u64) -> bool {
    w & (1u64 << BIT_SHIFT_OP1_IMM) != 0
}

pub open spec fn is_memory_access(op: OlaOpcode) -> bool {
    op == OlaOpcode::MLOAD || op == OlaOpcode::MSTORE
}

/// The first failing check of decoding, if any.
pub open spec fn decode_error(code: Seq<Seq<char>>) -> Option<DecodeError> {
    if code.len() == 0 {
        Some(DecodeError::EmptyCode)
    } else {
        match parse_line(code[0]) {
            None => Some(DecodeError::InvalidWord),
            Some(w) => match first_opcode_from(w, 0) {
                None => Some(DecodeError::NoOpcode),
                Some(op) => {
                    let len: nat = if word_is_op1_imm(w) || is_memory_access(op) { 2 } else { 1 };
                    if code.len() != len {
                        Some(DecodeError::LengthMismatch)
                    } else if len == 2 && parse_line(code[1]) is None {
                        Some(DecodeError::InvalidImmediate)
                    } else if is_memory_access(op) {
                        if first_register_from(w, OperandRole::Dst, 0) is None {
                            Some(DecodeError::NoDstRegister)
                        } else if first_register_from(w, OperandRole::Op0, 0) is None {
                            Some(DecodeError::NoOp0Register)
                        } else if !word_is_op1_imm(w) && first_register_from(w, OperandRole::Op1, 0) is None {
                            Some(DecodeError::NoOp1Register)
                        } else {
                            None
                        }
                    } else {
                        None
                    }
                },
            },
        }
    }
}

/// `o` is the register operand of `reg`, or absent where `reg` is.
pub open spec fn is_register_operand(o: Option<OlaOperand>, reg: Option<OlaRegister>) -> bool {
    match reg {
        Some(r) => o == Some(OlaOperand::RegisterOperand { register: r }),
        None => o is None,
    }
}

/// `o` is an immediate operand written `hex`.
pub open spec fn is_immediate_operand(o: Option<OlaOperand>, hex: Seq<char>) -> bool {
    match o {
        Some(OlaOperand::ImmediateOperand { value }) => value.hex@ == hex,
        _ => false,
    }
}

/// `o` is register `reg` with factor `hex`.
pub open spec fn is_factor_operand(o: Option<OlaOperand>, reg: OlaRegister, hex: Seq<char>) -> bool {
    match o {
        Some(OlaOperand::RegisterWithFactor { register, factor }) => register == reg && factor.hex@ == hex,
        _ => false,
    }
}

/// The operands of an instruction decoded from `code`.
pub open spec fn decoded_operands(inst: BinaryInstruction, code: Seq<Seq<char>>) -> bool {
    let w = parse_line(code[0])->0;
    let op = first_opcode_from(w, 0)->0;
    let op1_reg = first_register_from(w, OperandRole::Op1, 0);
    &&& inst.opcode == op
    &&& is_register_operand(inst.op0, first_register_from(w, OperandRole::Op0, 0))
    &&& is_register_operand(inst.dst, first_register_from(w, OperandRole::Dst, 0))
    &&& if word_is_op1_imm(w) {
        is_immediate_operand(inst.op1, code[1])
    } else if is_memory_access(op) {
        is_factor_operand(inst.op1, op1_reg->0, code[1])
    } else {
        match op1_reg {
            Some(r) => inst.op1 == Some(OlaOperand::RegisterOperand { register: r }),
            None => if op == OlaOpcode::MOV {
                inst.op1 == Some(OlaOperand::SpecialReg { special_reg: OlaSpecialRegister::PSP })
            } else {
                inst.op1 is None
            },
        }
    }
}

fn first_opcode(w: u64) -> (r: Option<OlaOpcode>)
    ensures
        r == first_opcode_from(w, 0),
{
    let mut i: usize = 0;
    while i < NUM_OPCODES
        invariant
            i <= NUM_OPCODES,
            first_opcode_from(w, 0) == first_opcode_from(w, i as nat),
        decreases NUM_OPCODES - i,
    {
        let op = OlaOpcode::from_index(i).unwrap();
        if w & op.binary_bit_mask() != 0 {
            return Some(op);
        }
        i = i + 1;
    }
    None
}

fn first_register(w: u64, role: OperandRole) -> (r: Option<OlaRegister>)
    ensures
        r == first_register_from(w, role, 0),
{
    let mut i: usize = 0;
    while i < NUM_REGISTERS
        invariant
            i <= NUM_REGISTERS,
            first_register_from(w, role, 0) == first_register_from(w, role, i as nat),
        decreases NUM_REGISTERS - i,
    {
        let reg = OlaRegister::from_index(i).unwrap();
        let mask = match role {
            OperandRole::Op0 => reg.binary_bit_mask_as_op0(),
            OperandRole::Op1 => reg.binary_bit_mask_as_op1(),
            OperandRole::Dst => reg.binary_bit_mask_as_dst(),
        };
        if w & mask != 0 {
            return Some(reg);
        }
        i = i + 1;
    }
    None
}

/// The text of each line of bytecode.
pub open spec fn line_views(code: Seq<String>) -> Seq<Seq<char>> {
    Seq::new(code.len(), |i: int| code[i]@)
}

impl BinaryInstruction {
    /// Decodes the lines of one instruction: its word, then its immediate
    /// value where the word calls for one. The opcode is the first, in
    /// decoding order, whose bit is set; each operand is the first register
    /// whose bit is set in its position.
    pub fn decode(binary_code: Vec<String>, prophet: Option<OlaProphet>) -> (r: Result<Self, DecodeError>)
        ensures
            r is Err <==> decode_error(line_views(binary_code@)) is Some,
            match r {
                Ok(inst) => decoded_operands(inst, line_views(binary_code@)) && inst.prophet == prophet,
                Err(e) => decode_error(line_views(binary_code@)) == Some(e),
            },
    {
        let ghost code = line_views(binary_code@);
        if binary_code.len() == 0 {
            return Err(DecodeError::EmptyCode);
        }
        let w = match parse_hex_u64(binary_code[0].as_str()) {
            Some(w) => w,
            None => return Err(DecodeError::InvalidWord),
        };
        let opcode = match first_opcode(w) {
            Some(op) => op,
            None => return Err(DecodeError::NoOpcode),
        };
        let is_op1_imm = w & (1u64 << BIT_SHIFT_OP1_IMM) != 0;
        let is_memory = opcode == OlaOpcode::MLOAD || opcode == OlaOpcode::MSTORE;
        let instruction_length: usize = if is_op1_imm || is_memory { 2 } else { 1 };
        if binary_code.len() != instruction_length {
            return Err(DecodeError::LengthMismatch);
        }
        let immediate_value: Option<ImmediateValue> = if instruction_length == 2 {
            match parse_hex_u64(binary_code[1].as_str()) {
                Some(_) => Some(ImmediateValue { hex: binary_code[1].clone() }),
                None => return Err(DecodeError::InvalidImmediate),
            }
        } else {
            None
        };
        if is_memory {
            let value_reg = match first_register(w, OperandRole::Dst) {
                Some(reg) => reg,
                None => return Err(DecodeError::NoDstRegister),
            };
            let anchor = match first_register(w, OperandRole::Op0) {
                Some(reg) => reg,
                None => return Err(DecodeError::NoOp0Register),
            };
            let offset = if is_op1_imm {
                OlaOperand::ImmediateOperand { value: immediate_value.unwrap() }
            } else {
                let offset_reg = match first_register(w, OperandRole::Op1) {
                    Some(reg) => reg,
                    None => return Err(DecodeError::NoOp1Register),
                };
                OlaOperand::RegisterWithFactor { register: offset_reg, factor: immediate_value.unwrap() }
            };
            Ok(
                BinaryInstruction {
                    opcode,
                    op0: Some(OlaOperand::RegisterOperand { register: anchor }),
                    op1: Some(offset),
                    dst: Some(OlaOperand::RegisterOperand { register: value_reg }),
                    prophet,
                },
            )
        } else {
            let op0 = match first_register(w, OperandRole::Op0) {
                Some(reg) => Some(OlaOperand::RegisterOperand { register: reg }),
                None => None,
            };
            let op1 = if is_op1_imm {
                Some(OlaOperand::ImmediateOperand { value: immediate_value.unwrap() })
            } else {
                match first_register(w, OperandRole::Op1) {
                    Some(reg) => Some(OlaOperand::RegisterOperand { register: reg }),
                    None => if opcode == OlaOpcode::MOV {
                        Some(OlaOperand::SpecialReg { special_reg: OlaSpecialRegister::PSP })
                    } else {
                        None
                    },
                }
            };
            let dst = match first_register(w, OperandRole::Dst) {
                Some(reg) => Some(OlaOperand::RegisterOperand { register: reg }),
                None => None,
            };
            Ok(BinaryInstruction { opcode, op0, op1, dst, prophet })
        }
    }
}

/// An optional operand as text, `None` where it is absent.
pub open spec fn operand_text(op: Option<OlaOperand>) -> Seq<char> {
    match op {
        Some(o) => o.asm_token_spec(),
        None => "None"@,
    }
}

fn operand_text_exec(op: &Option<OlaOperand>) -> (r: String)
    ensures
        r@ == operand_text(*op),
{
    match op {
        Some(o) => o.get_asm_token(),
        None => String::from_str("None"),
    }
}

impl BinaryInstruction {
    /// The instruction described for diagnostics.
    pub open spec fn description_spec(&self) -> Seq<char> {
        "BinaryInstruction ==> opcode: "@ + self.opcode.token_spec() + ", op0: "@ + operand_text(self.op0) + ", op1: "@
            + operand_text(self.op1) + ", dst: "@ + operand_text(self.dst) + ", prophet: "@ + match self.prophet {
            Some(p) => p.code@,
            None => "None"@,
        }
    }

    /// Describes the instruction: its opcode, its operands and the code of
    /// its prophet.
    pub fn to_display_string(&self) -> (r: String)
        ensures
            r@ == self.description_spec(),
    {
        let mut s = String::from_str("BinaryInstruction ==> opcode: ");
        s.append(self.opcode.token().as_str());
        s.append(", op0: ");
        s.append(operand_text_exec(&self.op0).as_str());
        s.append(", op1: ");
        s.append(operand_text_exec(&self.op1).as_str());
        s.append(", dst: ");
        s.append(operand_text_exec(&self.dst).as_str());
        s.append(", prophet: ");
        match &self.prophet {
            Some(p) => s.append(p.code.as_str()),
            None => s.append("None"),
        }
        s
    }
}

/// The register of an operand that is a plain register.
pub open spec fn reg_of(op: Option<OlaOperand>) -> Option<OlaRegister> {
    match op {
        Some(OlaOperand::RegisterOperand { register }) => Some(register),
        _ => None,
    }
}

/// An instruction of registers and at most an immediate op1, not a memory
/// access: op0 and dst are plain registers or absent, op1 is a plain
/// register, a readable immediate value, or absent (but not for `mov`, which
/// reads a special register there).
pub open spec fn is_register_form(i: BinaryInstruction) -> bool {
    &&& !is_memory_access(i.opcode)
    &&& (i.op0 is None || i.op0 matches Some(OlaOperand::RegisterOperand { .. }))
    &&& (i.dst is None || i.dst matches Some(OlaOperand::RegisterOperand { .. }))
    &&& match i.op1 {
        None => i.opcode != OlaOpcode::MOV,
        Some(OlaOperand::RegisterOperand { .. }) => true,
        Some(OlaOperand::ImmediateOperand { value }) => parse_line(value.hex@) is Some,
        _ => false,
    }
}

/// The two instructions have the same opcode and operands.
pub open spec fn same_operands(a: BinaryInstruction, b: BinaryInstruction) -> bool {
    &&& a.opcode == b.opcode
    &&& a.op0 == b.op0
    &&& a.dst == b.dst
    &&& match b.op1 {
        Some(OlaOperand::ImmediateOperand { value }) => is_immediate_operand(a.op1, value.hex@),
        _ => a.op1 == b.op1,
    }
}

proof fn lemma_register_at(r: OlaRegister)
    ensures
        r.index_spec() < NUM_REGISTERS,
        OlaRegister::at(r.index_spec() as nat) == r,
{
}

proof fn lemma_register_index(k: nat)
    requires
        k < NUM_REGISTERS,
    ensures
        OlaRegister::at(k).index_spec() == k,
{
}

proof fn lemma_opcode_at(op: OlaOpcode)
    ensures
        op.shift_spec() <= 31,
        31 - op.shift_spec() < NUM_OPCODES,
        OlaOpcode::at((31 - op.shift_spec()) as nat) == op,
{
}

proof fn lemma_opcode_shift(k: nat)
    requires
        k < NUM_OPCODES,
    ensures
        OlaOpcode::at(k).shift_spec() == 31 - k,
{
}

/// A register's bit is set exactly for the register of `target`.
pub open spec fn register_bits_match(w: u64, role: OperandRole, target: Option<OlaRegister>) -> bool {
    forall|k: nat|
        k < NUM_REGISTERS ==> ((w & #[trigger] role_mask(OlaRegister::at(k), role) != 0) <==> target == Some(
            OlaRegister::at(k),
        ))
}

proof fn lemma_first_register(w: u64, role: OperandRole, target: Option<OlaRegister>, j: nat)
    requires
        register_bits_match(w, role, target),
        j <= NUM_REGISTERS,
    ensures
        first_register_from(w, role, j) == match target {
            Some(r) => if r.index_spec() >= j { Some(r) } else { None },
            None => None,
        },
    decreases NUM_REGISTERS - j,
{
    if let Some(r) = target {
        lemma_register_at(r);
    }
    if j < NUM_REGISTERS {
        lemma_first_register(w, role, target, j + 1);
        lemma_register_index(j);
        assert((w & role_mask(OlaRegister::at(j), role) != 0) <==> target == Some(OlaRegister::at(j)));
    }
}

proof fn lemma_first_opcode(w: u64, op: OlaOpcode, j: nat)
    requires
        forall|k: nat| k < NUM_OPCODES ==> ((w & #[trigger] OlaOpcode::at(k).mask_spec() != 0) <==> OlaOpcode::at(k) == op),
        j <= NUM_OPCODES,
    ensures
        first_opcode_from(w, j) == if 31 - op.shift_spec() >= j { Some(op) } else { None },
    decreases NUM_OPCODES - j,
{
    lemma_opcode_at(op);
    if j < NUM_OPCODES {
        lemma_first_opcode(w, op, j + 1);
        lemma_opcode_shift(j);
        assert((w & OlaOpcode::at(j).mask_spec() != 0) <==> OlaOpcode::at(j) == op);
        if OlaOpcode::at(j) == op {
            assert(j == 31 - op.shift_spec());
        }
    }
}

/// The bits of an instruction word: op0 register bits 61 to 52, op1 bits 51
/// to 42, dst bits 41 to 32, the immediate flag bit 62, the opcode bit 31 down.
proof fn lemma_word_bits(a: u64, ia: u64, b: u64, ib: u64, c: u64, ic: u64, f: u64, io: u64, k: u64)
    requires
        ia < 10,
        ib < 10,
        ic < 10,
        io < 27,
        k < 32,
        a == 0 || a == 1u64 << ((61 - ia) as u64),
        b == 0 || b == 1u64 << ((51 - ib) as u64),
        c == 0 || c == 1u64 << ((41 - ic) as u64),
        f == 0 || f == 1u64 << 62u64,
    ensures
        a == 1u64 << ((61 - ia) as u64) ==> a != 0,
        b == 1u64 << ((51 - ib) as u64) ==> b != 0,
        c == 1u64 << ((41 - ic) as u64) ==> c != 0,
        f == 1u64 << 62u64 ==> f != 0,
        ({
            let w = ((((0u64 | a) | b) | c) | f) | (1u64 << ((31 - io) as u64));
            &&& (k < 10 ==> ((w & (1u64 << ((61 - k) as u64)) != 0) <==> (a != 0 && k == ia)))
            &&& (k < 10 ==> ((w & (1u64 << ((51 - k) as u64)) != 0) <==> (b != 0 && k == ib)))
            &&& (k < 10 ==> ((w & (1u64 << ((41 - k) as u64)) != 0) <==> (c != 0 && k == ic)))
            &&& (k < 27 ==> ((w & (1u64 << ((31 - k) as u64)) != 0) <==> k == io))
            &&& ((w & (1u64 << 62u64) != 0) <==> f != 0)
        }),
{
    assert(a == 1u64 << ((61 - ia) as u64) ==> a != 0) by (bit_vector)
        requires
            ia < 10,
    ;
    assert(b == 1u64 << ((51 - ib) as u64) ==> b != 0) by (bit_vector)
        requires
            ib < 10,
    ;
    assert(c == 1u64 << ((41 - ic) as u64) ==> c != 0) by (bit_vector)
        requires
            ic < 10,
    ;
    assert(f == 1u64 << 62u64 ==> f != 0) by (bit_vector);
    assert({
        let w = ((((0u64 | a) | b) | c) | f) | (1u64 << ((31 - io) as u64));
        &&& (k < 10 ==> ((w & (1u64 << ((61 - k) as u64)) != 0) <==> (a != 0 && k == ia)))
        &&& (k < 10 ==> ((w & (1u64 << ((51 - k) as u64)) != 0) <==> (b != 0 && k == ib)))
        &&& (k < 10 ==> ((w & (1u64 << ((41 - k) as u64)) != 0) <==> (c != 0 && k == ic)))
        &&& (k < 27 ==> ((w & (1u64 << ((31 - k) as u64)) != 0) <==> k == io))
        &&& ((w & (1u64 << 62u64) != 0) <==> f != 0)
    }) by (bit_vector)
        requires
            ia < 10,
            ib < 10,
            ic < 10,
            io < 27,
            k < 32,
            a == 0 || a == 1u64 << ((61 - ia) as u64),
            b == 0 || b == 1u64 << ((51 - ib) as u64),
            c == 0 || c == 1u64 << ((41 - ic) as u64),
            f == 0 || f == 1u64 << 62u64,
    ;
}

/// The index of an operand's register, zero where there is none.
pub open spec fn reg_index(op: Option<OlaOperand>) -> u64 {
    match reg_of(op) {
        Some(r) => r.index_spec(),
        None => 0,
    }
}

/// Decoding the lines that `encode` gives for an instruction of registers and
/// immediate values yields that instruction again: the lines decode without
/// error, and any instruction that decoding may return from them has the same
/// opcode and operands.
pub proof fn lemma_decode_encode(i: BinaryInstruction, d: BinaryInstruction)
    requires
        is_register_form(i),
        decoded_operands(d, i.encoded_spec()),
    ensures
        i.encode_error() is None,
        decode_error(i.encoded_spec()) is None,
        same_operands(d, i),
{
    let w = i.word_spec();
    crate::hex::lemma_hex16_round_trip(w);
    let a = op0_bits(i.op0);
    let b = op1_bits(i.op1);
    let c = dst_bits(i.dst);
    let f: u64 = if op1_is_imm(i.op1) { 1u64 << BIT_SHIFT_OP1_IMM } else { 0 };
    let ia = reg_index(i.op0);
    let ib = reg_index(i.op1);
    let ic = reg_index(i.dst);
    lemma_opcode_at(i.opcode);
    let io = (31 - i.opcode.shift_spec()) as u64;
    if let Some(r) = reg_of(i.op0) {
        lemma_register_at(r);
    }
    if let Some(r) = reg_of(i.op1) {
        lemma_register_at(r);
    }
    if let Some(r) = reg_of(i.dst) {
        lemma_register_at(r);
    }
    assert(w == ((((0u64 | a) | b) | c) | f) | (1u64 << ((31 - io) as u64)));
    lemma_word_bits(a, ia, b, ib, c, ic, f, io, 0);
    assert forall|k: nat| k < NUM_REGISTERS implies ((w & #[trigger] role_mask(OlaRegister::at(k), OperandRole::Op0) != 0)
        <==> reg_of(i.op0) == Some(OlaRegister::at(k))) by {
        lemma_register_index(k);
        lemma_word_bits(a, ia, b, ib, c, ic, f, io, k as u64);
    }
    assert forall|k: nat| k < NUM_REGISTERS implies ((w & #[trigger] role_mask(OlaRegister::at(k), OperandRole::Op1) != 0)
        <==> reg_of(i.op1) == Some(OlaRegister::at(k))) by {
        lemma_register_index(k);
        lemma_word_bits(a, ia, b, ib, c, ic, f, io, k as u64);
    }
    assert forall|k: nat| k < NUM_REGISTERS implies ((w & #[trigger] role_mask(OlaRegister::at(k), OperandRole::Dst) != 0)
        <==> reg_of(i.dst) == Some(OlaRegister::at(k))) by {
        lemma_register_index(k);
        lemma_word_bits(a, ia, b, ib, c, ic, f, io, k as u64);
    }
    lemma_first_register(w, OperandRole::Op0, reg_of(i.op0), 0);
    lemma_first_register(w, OperandRole::Op1, reg_of(i.op1), 0);
    lemma_first_register(w, OperandRole::Dst, reg_of(i.dst), 0);
    assert forall|k: nat| k < NUM_OPCODES implies ((w & #[trigger] OlaOpcode::at(k).mask_spec() != 0) <==> OlaOpcode::at(k)
        == i.opcode) by {
        lemma_opcode_shift(k);
        lemma_word_bits(a, ia, b, ib, c, ic, f, io, k as u64);
    }
    lemma_first_opcode(w, i.opcode, 0);
    assert(word_is_op1_imm(w) == op1_is_imm(i.op1));
}

} // verus!
