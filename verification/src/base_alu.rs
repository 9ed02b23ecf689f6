//! The emitter of the base ALU class: ADD, SUB, XOR, OR and AND, each with a
//! register or an immediate as second source.
//!
//! An instruction is lowered to a few host instructions on the register buffer.
//! Sources that name the zero register are folded away: the generated code relies
//! on slot zero of the buffer being zero whenever a fragment starts.

use vstd::prelude::*;
use vstd::string::*;
use crate::error::AotError;
use crate::executor::AotExecutor;
use crate::host::{
    alu, imm_value, imm_word, alu_word, lines_text, mnemonic, mnemonic_str, push_lines, run,
    run_upto, slots_in_buffer, step, symbol, symbol_str, HostInsn, HostState, Line, Note,
    NUM_REGISTERS,
};
use crate::instruction::{
    BaseAluOpcode, Instruction, RV32_IMM_AS, RV32_REGISTER_AS,
};
use crate::text::{dec, push_dec, push_signed_dec, signed_dec};

verus! {

/// The second source of a base ALU instruction.
#[derive(Clone, Copy, Debug, PartialEq, Eq, Structural)]
pub enum Operand {
    Imm(i32),
    Reg(u8),
}

/// A base ALU instruction with its operand fields decoded.
#[derive(Clone, Copy, Debug, PartialEq, Eq, Structural)]
pub struct AluInstruction {
    pub op: BaseAluOpcode,
    pub rd: u8,
    pub rs1: u8,
    pub operand: Operand,
}

/// The host instructions for `rd = rs1 op operand`, with the notes of their comments.
pub open spec fn spec_lower(op: BaseAluOpcode, rd: u8, rs1: u8, operand: Operand) -> Seq<Line> {
    match operand {
        Operand::Imm(imm) => {
            if rs1 == 0 {
                match op {
                    BaseAluOpcode::ADD => seq![
                        Line { insn: HostInsn::StoreImm { rd, imm }, note: Note::Value(imm) },
                    ],
                    BaseAluOpcode::SUB => seq![
                        Line {
                            insn: HostInsn::StoreWord {
                                rd,
                                value: alu(BaseAluOpcode::SUB, 0, imm_value(imm)),
                            },
                            note: Note::ZeroWithImm(op, imm),
                        },
                    ],
                    BaseAluOpcode::XOR | BaseAluOpcode::OR => seq![
                        Line {
                            insn: HostInsn::StoreWord { rd, value: imm_value(imm) },
                            note: Note::ZeroWithImm(op, imm),
                        },
                    ],
                    BaseAluOpcode::AND => seq![
                        Line {
                            insn: HostInsn::StoreWord { rd, value: 0 },
                            note: Note::ZeroWithImm(op, imm),
                        },
                    ],
                }
            } else {
                seq![
                    Line { insn: HostInsn::Load { rs: rs1 }, note: Note::Plain },
                    Line { insn: HostInsn::AluImm { op, imm }, note: Note::Plain },
                    Line { insn: HostInsn::Store { rd }, note: Note::Plain },
                ]
            }
        },
        Operand::Reg(rs2) => {
            if op == BaseAluOpcode::AND && (rs1 == 0 || rs2 == 0) {
                seq![Line { insn: HostInsn::StoreWord { rd, value: 0 }, note: Note::AndWithZero }]
            } else if op != BaseAluOpcode::AND && rs1 == 0 && rs2 == 0 {
                seq![
                    Line { insn: HostInsn::StoreWord { rd, value: 0 }, note: Note::ZeroWithZero(op) },
                ]
            } else if op != BaseAluOpcode::AND && rs1 == 0 {
                if op == BaseAluOpcode::SUB {
                    seq![
                        Line { insn: HostInsn::Load { rs: rs2 }, note: Note::Plain },
                        Line { insn: HostInsn::Neg, note: Note::Plain },
                        Line { insn: HostInsn::Store { rd }, note: Note::Plain },
                    ]
                } else {
                    seq![
                        Line { insn: HostInsn::Load { rs: rs2 }, note: Note::Plain },
                        Line { insn: HostInsn::Store { rd }, note: Note::ZeroFirst(op) },
                    ]
                }
            } else if op != BaseAluOpcode::AND && rs2 == 0 {
                seq![
                    Line { insn: HostInsn::Load { rs: rs1 }, note: Note::Plain },
                    Line { insn: HostInsn::Store { rd }, note: Note::ZeroSecond(op) },
                ]
            } else {
                seq![
                    Line { insn: HostInsn::Load { rs: rs1 }, note: Note::Plain },
                    Line { insn: HostInsn::AluReg { op, rs: rs2 }, note: Note::Plain },
                    Line { insn: HostInsn::Store { rd }, note: Note::Plain },
                ]
            }
        },
    }
}

/// The comment line that heads a fragment: the guest instruction and its formula.
pub open spec fn header_text(op: BaseAluOpcode, rd: u8, rs1: u8, operand: Operand) -> Seq<char> {
    match operand {
        Operand::Imm(imm) => "    ; "@ + mnemonic(op) + "i x"@ + dec(rd as nat) + ", x"@ + dec(
            rs1 as nat,
        ) + ", "@ + signed_dec(imm as int) + " (rd=rs1"@ + symbol(op) + "imm)"@,
        Operand::Reg(rs2) => "    ; "@ + mnemonic(op) + " x"@ + dec(rd as nat) + ", x"@ + dec(
            rs1 as nat,
        ) + ", x"@ + dec(rs2 as nat) + " (rd=rs1"@ + symbol(op) + "rs2)"@,
    }
}

/// The fragment for `rd = rs1 op operand`: the heading comment and one line per host instruction.
pub open spec fn fragment_text(op: BaseAluOpcode, rd: u8, rs1: u8, operand: Operand) -> Seq<char> {
    header_text(op, rd, rs1, operand) + lines_text(spec_lower(op, rd, rs1, operand))
}

/// Lowers `rd = rs1 op operand` to host instructions.
pub fn lower(op: BaseAluOpcode, rd: u8, rs1: u8, operand: Operand) -> (lines: Vec<Line>)
    ensures
        lines@ == spec_lower(op, rd, rs1, operand),
{
    let mut lines: Vec<Line> = Vec::new();
    match operand {
        Operand::Imm(imm) => {
            if rs1 == 0 {
                match op {
                    BaseAluOpcode::ADD => {
                        lines.push(
                            Line { insn: HostInsn::StoreImm { rd, imm }, note: Note::Value(imm) },
                        );
                    },
                    BaseAluOpcode::SUB => {
                        let value = alu_word(BaseAluOpcode::SUB, 0, imm_word(imm));
                        lines.push(
                            Line {
                                insn: HostInsn::StoreWord { rd, value },
                                note: Note::ZeroWithImm(op, imm),
                            },
                        );
                    },
                    BaseAluOpcode::XOR | BaseAluOpcode::OR => {
                        lines.push(
                            Line {
                                insn: HostInsn::StoreWord { rd, value: imm_word(imm) },
                                note: Note::ZeroWithImm(op, imm),
                            },
                        );
                    },
                    BaseAluOpcode::AND => {
                        lines.push(
                            Line {
                                insn: HostInsn::StoreWord { rd, value: 0 },
                                note: Note::ZeroWithImm(op, imm),
                            },
                        );
                    },
                }
            } else {
                lines.push(Line { insn: HostInsn::Load { rs: rs1 }, note: Note::Plain });
                lines.push(Line { insn: HostInsn::AluImm { op, imm }, note: Note::Plain });
                lines.push(Line { insn: HostInsn::Store { rd }, note: Note::Plain });
            }
        },
        Operand::Reg(rs2) => {
            let is_and = op == BaseAluOpcode::AND;
            if is_and && (rs1 == 0 || rs2 == 0) {
                lines.push(
                    Line { insn: HostInsn::StoreWord { rd, value: 0 }, note: Note::AndWithZero },
                );
            } else if !is_and && rs1 == 0 && rs2 == 0 {
                lines.push(
                    Line { insn: HostInsn::StoreWord { rd, value: 0 }, note: Note::ZeroWithZero(op) },
                );
            } else if !is_and && rs1 == 0 {
                if op == BaseAluOpcode::SUB {
                    lines.push(Line { insn: HostInsn::Load { rs: rs2 }, note: Note::Plain });
                    lines.push(Line { insn: HostInsn::Neg, note: Note::Plain });
                    lines.push(Line { insn: HostInsn::Store { rd }, note: Note::Plain });
                } else {
                    lines.push(Line { insn: HostInsn::Load { rs: rs2 }, note: Note::Plain });
                    lines.push(Line { insn: HostInsn::Store { rd }, note: Note::ZeroFirst(op) });
                }
            } else if !is_and && rs2 == 0 {
                lines.push(Line { insn: HostInsn::Load { rs: rs1 }, note: Note::Plain });
                lines.push(Line { insn: HostInsn::Store { rd }, note: Note::ZeroSecond(op) });
            } else {
                lines.push(Line { insn: HostInsn::Load { rs: rs1 }, note: Note::Plain });
                lines.push(Line { insn: HostInsn::AluReg { op, rs: rs2 }, note: Note::Plain });
                lines.push(Line { insn: HostInsn::Store { rd }, note: Note::Plain });
            }
        },
    }
    assert(lines@ =~= spec_lower(op, rd, rs1, operand));
    lines
}

/// Writes the fragment for `rd = rs1 op operand`.
pub fn generate_alu_assembly(op: BaseAluOpcode, rd: u8, rs1: u8, operand: Operand) -> (text: String)
    ensures
        text@ == fragment_text(op, rd, rs1, operand),
{
    let mut text = String::from_str("    ; ");
    text.append(mnemonic_str(op));
    match operand {
        Operand::Imm(imm) => {
            text.append("i x");
            push_dec(&mut text, rd as u64);
            text.append(", x");
            push_dec(&mut text, rs1 as u64);
            text.append(", ");
            push_signed_dec(&mut text, imm as i64);
            text.append(" (rd=rs1");
            text.append(symbol_str(op));
            text.append("imm)");
        },
        Operand::Reg(rs2) => {
            text.append(" x");
            push_dec(&mut text, rd as u64);
            text.append(", x");
            push_dec(&mut text, rs1 as u64);
            text.append(", x");
            push_dec(&mut text, rs2 as u64);
            text.append(" (rd=rs1");
            text.append(symbol_str(op));
            text.append("rs2)");
        },
    }
    assert(text@ =~= header_text(op, rd, rs1, operand));
    let lines = lower(op, rd, rs1, operand);
    push_lines(&mut text, &lines);
    text
}

pub fn generate_add_imm_assembly(rd: u8, rs1: u8, imm: i32) -> (text: String)
    ensures
        text@ == fragment_text(BaseAluOpcode::ADD, rd, rs1, Operand::Imm(imm)),
{
    generate_alu_assembly(BaseAluOpcode::ADD, rd, rs1, Operand::Imm(imm))
}

pub fn generate_add_reg_assembly(rd: u8, rs1: u8, rs2: u8) -> (text: String)
    ensures
        text@ == fragment_text(BaseAluOpcode::ADD, rd, rs1, Operand::Reg(rs2)),
{
    generate_alu_assembly(BaseAluOpcode::ADD, rd, rs1, Operand::Reg(rs2))
}

pub fn generate_sub_imm_assembly(rd: u8, rs1: u8, imm: i32) -> (text: String)
    ensures
        text@ == fragment_text(BaseAluOpcode::SUB, rd, rs1, Operand::Imm(imm)),
{
    generate_alu_assembly(BaseAluOpcode::SUB, rd, rs1, Operand::Imm(imm))
}

pub fn generate_sub_reg_assembly(rd: u8, rs1: u8, rs2: u8) -> (text: String)
    ensures
        text@ == fragment_text(BaseAluOpcode::SUB, rd, rs1, Operand::Reg(rs2)),
{
    generate_alu_assembly(BaseAluOpcode::SUB, rd, rs1, Operand::Reg(rs2))
}

pub fn generate_xor_imm_assembly(rd: u8, rs1: u8, imm: i32) -> (text: String)
    ensures
        text@ == fragment_text(BaseAluOpcode::XOR, rd, rs1, Operand::Imm(imm)),
{
    generate_alu_assembly(BaseAluOpcode::XOR, rd, rs1, Operand::Imm(imm))
}

pub fn generate_xor_reg_assembly(rd: u8, rs1: u8, rs2: u8) -> (text: String)
    ensures
        text@ == fragment_text(BaseAluOpcode::XOR, rd, rs1, Operand::Reg(rs2)),
{
    generate_alu_assembly(BaseAluOpcode::XOR, rd, rs1, Operand::Reg(rs2))
}

pub fn generate_or_imm_assembly(rd: u8, rs1: u8, imm: i32) -> (text: String)
    ensures
        text@ == fragment_text(BaseAluOpcode::OR, rd, rs1, Operand::Imm(imm)),
{
    generate_alu_assembly(BaseAluOpcode::OR, rd, rs1, Operand::Imm(imm))
}

pub fn generate_or_reg_assembly(rd: u8, rs1: u8, rs2: u8) -> (text: String)
    ensures
        text@ == fragment_text(BaseAluOpcode::OR, rd, rs1, Operand::Reg(rs2)),
{
    generate_alu_assembly(BaseAluOpcode::OR, rd, rs1, Operand::Reg(rs2))
}

pub fn generate_and_imm_assembly(rd: u8, rs1: u8, imm: i32) -> (text: String)
    ensures
        text@ == fragment_text(BaseAluOpcode::AND, rd, rs1, Operand::Imm(imm)),
{
    generate_alu_assembly(BaseAluOpcode::AND, rd, rs1, Operand::Imm(imm))
}

pub fn generate_and_reg_assembly(rd: u8, rs1: u8, rs2: u8) -> (text: String)
    ensures
        text@ == fragment_text(BaseAluOpcode::AND, rd, rs1, Operand::Reg(rs2)),
{
    generate_alu_assembly(BaseAluOpcode::AND, rd, rs1, Operand::Reg(rs2))
}

/// The register that an operand field names: its low eight bits.
pub open spec fn field_register(field: u32) -> u8 {
    (field % 256) as u8
}

/// The immediate that an operand field holds: its 32 bits read in two's complement.
pub open spec fn field_immediate(field: u32) -> i32 {
    if field < 0x8000_0000 {
        field as i32
    } else {
        (field - 0x1_0000_0000) as i32
    }
}

/// Reads an instruction as one of the base ALU class whose opcodes start at `offset`.
///
/// Field `a` is the destination, `b` the first source and `c` the second source
/// or the immediate; `d` has to be the register address space and `e` the
/// register or the immediate address space. An opcode outside the class is not
/// this emitter's; a wrong address space in one of its own is an error that names
/// the program counter.
pub open spec fn spec_decode(offset: usize, pc: u32, inst: Instruction) -> Result<
    Option<AluInstruction>,
    AotError,
> {
    if inst.opcode.0 < offset {
        Ok(None)
    } else {
        match BaseAluOpcode::spec_from_usize((inst.opcode.0 - offset) as usize) {
            None => Ok(None),
            Some(op) => {
                if inst.d != RV32_REGISTER_AS {
                    Err(AotError::InvalidInstruction(pc))
                } else if inst.e != RV32_IMM_AS && inst.e != RV32_REGISTER_AS {
                    Err(AotError::InvalidInstruction(pc))
                } else {
                    Ok(
                        Some(
                            AluInstruction {
                                op,
                                rd: field_register(inst.a),
                                rs1: field_register(inst.b),
                                operand: if inst.e == RV32_IMM_AS {
                                    Operand::Imm(field_immediate(inst.c))
                                } else {
                                    Operand::Reg(field_register(inst.c))
                                },
                            },
                        ),
                    )
                }
            },
        }
    }
}

/// The executor of the base ALU class, as far as ahead-of-time translation goes:
/// the global opcode at which its class starts.
#[derive(Clone, Copy, Debug)]
pub struct BaseAluExecutor {
    pub offset: usize,
}

impl BaseAluExecutor {
    pub fn new(offset: usize) -> (executor: Self)
        ensures
            executor.offset == offset,
    {
        BaseAluExecutor { offset }
    }

    /// Reads an instruction as one of this executor's class.
    pub fn decode(&self, pc: u32, inst: &Instruction) -> (decoded: Result<
        Option<AluInstruction>,
        AotError,
    >)
        ensures
            decoded == spec_decode(self.offset, pc, *inst),
    {
        if inst.opcode.as_usize() < self.offset {
            return Ok(None);
        }
        let op = match BaseAluOpcode::from_usize(inst.opcode.local_opcode_idx(self.offset)) {
            None => {
                return Ok(None);
            },
            Some(op) => op,
        };
        if inst.d != RV32_REGISTER_AS {
            return Err(AotError::InvalidInstruction(pc));
        }
        let is_imm = inst.e == RV32_IMM_AS;
        if !is_imm && inst.e != RV32_REGISTER_AS {
            return Err(AotError::InvalidInstruction(pc));
        }
        let rd = (inst.a % 256) as u8;
        let rs1 = (inst.b % 256) as u8;
        let operand = if is_imm {
            if inst.c < 0x8000_0000 {
                Operand::Imm(inst.c as i32)
            } else {
                Operand::Imm((inst.c as i64 - 0x1_0000_0000) as i32)
            }
        } else {
            Operand::Reg((inst.c % 256) as u8)
        };
        Ok(Some(AluInstruction { op, rd, rs1, operand }))
    }
}

impl AotExecutor for BaseAluExecutor {
    open spec fn spec_assembly(&self, pc: u32, inst: Instruction) -> Result<
        Option<Seq<char>>,
        AotError,
    > {
        match spec_decode(self.offset, pc, inst) {
            Ok(Some(alu)) => Ok(Some(fragment_text(alu.op, alu.rd, alu.rs1, alu.operand))),
            Ok(None) => Ok(None),
            Err(error) => Err(error),
        }
    }

    fn generate_aot_assembly(&self, pc: u32, inst: &Instruction) -> (emitted: Result<
        Option<String>,
        AotError,
    >) {
        match self.decode(pc, inst) {
            Ok(Some(alu)) => Ok(
                Some(generate_alu_assembly(alu.op, alu.rd, alu.rs1, alu.operand)),
            ),
            Ok(None) => Ok(None),
            Err(error) => Err(error),
        }
    }
}

/// The word that the second source stands for in a register buffer.
pub open spec fn operand_value(operand: Operand, regs: Seq<u32>) -> u32 {
    match operand {
        Operand::Imm(imm) => imm_value(imm),
        Operand::Reg(rs2) => regs[rs2 as int],
    }
}

/// Whether the registers of `rd = rs1 op operand` are among the thirty-two of the buffer.
pub open spec fn registers_in_buffer(rd: u8, rs1: u8, operand: Operand) -> bool {
    &&& rd < NUM_REGISTERS
    &&& rs1 < NUM_REGISTERS
    &&& operand matches Operand::Reg(rs2) ==> rs2 < NUM_REGISTERS
}

/// Combining with zero: the facts that the folding of the zero register rests on.
pub proof fn lemma_alu_zero(x: u32)
    ensures
        alu(BaseAluOpcode::ADD, 0, x) == x,
        alu(BaseAluOpcode::ADD, x, 0) == x,
        alu(BaseAluOpcode::SUB, x, 0) == x,
        alu(BaseAluOpcode::XOR, 0, x) == x,
        alu(BaseAluOpcode::XOR, x, 0) == x,
        alu(BaseAluOpcode::OR, 0, x) == x,
        alu(BaseAluOpcode::OR, x, 0) == x,
        alu(BaseAluOpcode::AND, 0, x) == 0,
        alu(BaseAluOpcode::AND, x, 0) == 0,
{
    assert(0u32 ^ x == x) by (bit_vector);
    assert(x ^ 0u32 == x) by (bit_vector);
    assert(0u32 | x == x) by (bit_vector);
    assert(x | 0u32 == x) by (bit_vector);
    assert(0u32 & x == 0) by (bit_vector);
    assert(x & 0u32 == 0) by (bit_vector);
}

/// The state after one, two or three lines, written out step by step.
pub proof fn lemma_run_unfolded(lines: Seq<Line>, state: HostState)
    requires
        1 <= lines.len() <= 3,
    ensures
        lines.len() == 1 ==> run(lines, state) == step(lines[0].insn, state),
        lines.len() == 2 ==> run(lines, state) == step(lines[1].insn, step(lines[0].insn, state)),
        lines.len() == 3 ==> run(lines, state) == step(
            lines[2].insn,
            step(lines[1].insn, step(lines[0].insn, state)),
        ),
{
    reveal_with_fuel(run_upto, 4);
}

/// A fragment computes its instruction. Started on a register buffer whose slot
/// zero holds zero, the host instructions that `rd = rs1 op operand` is lowered to
/// leave `op` of the two sources in slot `rd` and every other slot as it was,
/// whatever the scratch register held before; and they stay inside the buffer.
/// This holds also where a source is the destination, and where sources that
/// name the zero register were folded away.
pub proof fn lemma_fragment_computes(
    op: BaseAluOpcode,
    rd: u8,
    rs1: u8,
    operand: Operand,
    state: HostState,
)
    requires
        state.regs.len() == NUM_REGISTERS,
        state.regs[0] == 0,
        registers_in_buffer(rd, rs1, operand),
    ensures
        run(spec_lower(op, rd, rs1, operand), state).regs == state.regs.update(
            rd as int,
            alu(op, state.regs[rs1 as int], operand_value(operand, state.regs)),
        ),
        forall|i: int|
            0 <= i < spec_lower(op, rd, rs1, operand).len() ==> slots_in_buffer(
                #[trigger] spec_lower(op, rd, rs1, operand)[i].insn,
            ),
{
    let lines = spec_lower(op, rd, rs1, operand);
    let x = state.regs[rs1 as int];
    let y = operand_value(operand, state.regs);
    let after = state.regs.update(rd as int, alu(op, x, y));
    lemma_alu_zero(x);
    lemma_alu_zero(y);
    lemma_run_unfolded(lines, state);
    match operand {
        Operand::Imm(imm) => {
            if rs1 == 0 {
                assert(run(lines, state).regs == after);
            } else {
                assert(run(lines, state).regs == after);
            }
        },
        Operand::Reg(rs2) => {
            if rs1 == 0 && rs2 == 0 {
                assert(run(lines, state).regs == after);
            } else if rs1 == 0 {
                assert(run(lines, state).regs == after);
            } else if rs2 == 0 {
                assert(run(lines, state).regs == after);
            } else {
                assert(run(lines, state).regs == after);
            }
        },
    }
}

/// Whether the instruction writes no slot of the buffer other than `rd`.
pub open spec fn writes_only(insn: HostInsn, rd: u8) -> bool {
    match insn {
        HostInsn::StoreImm { rd: slot, imm } => slot == rd,
        HostInsn::StoreWord { rd: slot, value } => slot == rd,
        HostInsn::Store { rd: slot } => slot == rd,
        _ => true,
    }
}

/// Lines that write no slot but `rd` leave every other slot, and the length of
/// the buffer, as they were.
pub proof fn lemma_run_keeps_slots(lines: Seq<Line>, state: HostState, n: int, rd: u8, slot: int)
    requires
        0 <= n <= lines.len(),
        forall|i: int| 0 <= i < n ==> writes_only(#[trigger] lines[i].insn, rd),
        0 <= slot < state.regs.len(),
        slot != rd,
    ensures
        run_upto(lines, state, n).regs[slot] == state.regs[slot],
        run_upto(lines, state, n).regs.len() == state.regs.len(),
    decreases n,
{
    if n > 0 {
        lemma_run_keeps_slots(lines, state, n - 1, rd, slot);
        assert(writes_only(lines[n - 1].insn, rd));
    }
}

/// A fragment writes no slot but its destination: every other slot, slot zero
/// among them unless the instruction names it as destination, keeps its value.
pub proof fn lemma_fragment_keeps_other_slots(
    op: BaseAluOpcode,
    rd: u8,
    rs1: u8,
    operand: Operand,
    state: HostState,
    slot: int,
)
    requires
        0 <= slot < state.regs.len(),
        slot != rd,
    ensures
        run(spec_lower(op, rd, rs1, operand), state).regs[slot] == state.regs[slot],
        run(spec_lower(op, rd, rs1, operand), state).regs.len() == state.regs.len(),
{
    let lines = spec_lower(op, rd, rs1, operand);
    assert forall|i: int| 0 <= i < lines.len() implies writes_only(#[trigger] lines[i].insn, rd) by {
    }
    lemma_run_keeps_slots(lines, state, lines.len() as int, rd, slot);
}

} // verus!
