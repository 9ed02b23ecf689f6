//! The host instructions that emitted fragments are made of.
//!
//! A fragment works on the register buffer, thirty-two words of four bytes that
//! the generated code keeps on its stack and addresses from `rbx`, and on one
//! scratch register, `r15d`. This module gives each host instruction its
//! assembly text and its effect on buffer and scratch register.

use vstd::prelude::*;
use vstd::string::*;
use crate::instruction::BaseAluOpcode;
use crate::text::{dec, push_dec, push_signed_dec, signed_dec};

verus! {

/// Number of guest registers, and of slots in the register buffer.
pub const NUM_REGISTERS: usize = 32;

/// One host instruction of a fragment.
#[derive(Clone, Copy, Debug, PartialEq, Eq, Structural)]
pub enum HostInsn {
    /// Stores an immediate in slot `rd`; the text shows it with its sign.
    StoreImm { rd: u8, imm: i32 },
    /// Stores a word in slot `rd`; the text shows it without sign.
    StoreWord { rd: u8, value: u32 },
    /// Loads slot `rs` into the scratch register.
    Load { rs: u8 },
    /// Combines the scratch register with an immediate.
    AluImm { op: BaseAluOpcode, imm: i32 },
    /// Combines the scratch register with slot `rs`.
    AluReg { op: BaseAluOpcode, rs: u8 },
    /// Negates the scratch register.
    Neg,
    /// Stores the scratch register in slot `rd`.
    Store { rd: u8 },
}

/// What the comment behind an instruction says beyond naming its slot.
#[derive(Clone, Copy, Debug, PartialEq, Eq, Structural)]
pub enum Note {
    Plain,
    /// The immediate that is stored.
    Value(i32),
    /// Zero combined with an immediate.
    ZeroWithImm(BaseAluOpcode, i32),
    /// Zero combined with zero.
    ZeroWithZero(BaseAluOpcode),
    /// Anything and zero is zero.
    AndWithZero,
    /// The first source is the zero register, so the result is the second source.
    ZeroFirst(BaseAluOpcode),
    /// The second source is the zero register, so the result is the first source.
    ZeroSecond(BaseAluOpcode),
}

/// A host instruction with the note for its comment.
#[derive(Clone, Copy, Debug, PartialEq, Eq, Structural)]
pub struct Line {
    pub insn: HostInsn,
    pub note: Note,
}

/// The byte offset of a slot in the register buffer.
pub open spec fn slot_offset(reg: u8) -> nat {
    4 * reg as nat
}

pub open spec fn mnemonic(op: BaseAluOpcode) -> Seq<char> {
    match op {
        BaseAluOpcode::ADD => "add"@,
        BaseAluOpcode::SUB => "sub"@,
        BaseAluOpcode::XOR => "xor"@,
        BaseAluOpcode::OR => "or"@,
        BaseAluOpcode::AND => "and"@,
    }
}

pub open spec fn symbol(op: BaseAluOpcode) -> Seq<char> {
    match op {
        BaseAluOpcode::ADD => "+"@,
        BaseAluOpcode::SUB => "-"@,
        BaseAluOpcode::XOR => "^"@,
        BaseAluOpcode::OR => "|"@,
        BaseAluOpcode::AND => "&"@,
    }
}

/// The comment behind an operation with an immediate, aligned as if the immediate had no width.
pub open spec fn imm_comment(op: BaseAluOpcode) -> Seq<char> {
    match op {
        BaseAluOpcode::ADD => "                  ; Add immediate"@,
        BaseAluOpcode::SUB => "                  ; Subtract immediate"@,
        BaseAluOpcode::XOR => "                  ; XOR immediate"@,
        BaseAluOpcode::OR => "                   ; OR immediate"@,
        BaseAluOpcode::AND => "                  ; AND immediate"@,
    }
}

/// The start of the comment behind an operation with a slot; the slot's number follows.
pub open spec fn reg_comment(op: BaseAluOpcode) -> Seq<char> {
    match op {
        BaseAluOpcode::ADD => " ; Add x"@,
        BaseAluOpcode::SUB => " ; Subtract x"@,
        BaseAluOpcode::XOR => " ; XOR x"@,
        BaseAluOpcode::OR => "  ; OR x"@,
        BaseAluOpcode::AND => " ; AND x"@,
    }
}

/// The assembly text of a host instruction.
pub open spec fn insn_text(insn: HostInsn) -> Seq<char> {
    match insn {
        HostInsn::StoreImm { rd, imm } => "mov dword ptr [rbx + "@ + dec(slot_offset(rd)) + "], "@
            + signed_dec(imm as int),
        HostInsn::StoreWord { rd, value } => "mov dword ptr [rbx + "@ + dec(slot_offset(rd))
            + "], "@ + dec(value as nat),
        HostInsn::Load { rs } => "mov r15d, dword ptr [rbx + "@ + dec(slot_offset(rs)) + "]"@,
        HostInsn::AluImm { op, imm } => mnemonic(op) + " r15d, "@ + signed_dec(imm as int),
        HostInsn::AluReg { op, rs } => mnemonic(op) + " r15d, dword ptr [rbx + "@ + dec(
            slot_offset(rs),
        ) + "]"@,
        HostInsn::Neg => "neg r15d"@,
        HostInsn::Store { rd } => "mov dword ptr [rbx + "@ + dec(slot_offset(rd)) + "], r15d"@,
    }
}

/// The text of a note.
pub open spec fn note_text(note: Note) -> Seq<char> {
    match note {
        Note::Plain => Seq::empty(),
        Note::Value(imm) => signed_dec(imm as int),
        Note::ZeroWithImm(op, imm) => "0"@ + symbol(op) + signed_dec(imm as int) + (if op
            == BaseAluOpcode::AND {
            " = 0"@
        } else {
            Seq::empty()
        }),
        Note::ZeroWithZero(op) => "0"@ + symbol(op) + "0"@,
        Note::AndWithZero => "X&0 = 0"@,
        Note::ZeroFirst(op) => " (0"@ + symbol(op) + "rs2 = rs2)"@,
        Note::ZeroSecond(op) => " (rs1"@ + symbol(op) + "0 = rs1)"@,
    }
}

/// The comment behind a host instruction.
pub open spec fn comment_text(insn: HostInsn, note: Note) -> Seq<char> {
    match insn {
        HostInsn::StoreImm { rd, imm } => "  ; x"@ + dec(rd as nat) + " = "@ + note_text(note),
        HostInsn::StoreWord { rd, value } => "  ; x"@ + dec(rd as nat) + " = "@ + note_text(note),
        HostInsn::Load { rs } => " ; Load x"@ + dec(rs as nat),
        HostInsn::AluImm { op, imm } => imm_comment(op),
        HostInsn::AluReg { op, rs } => reg_comment(op) + dec(rs as nat),
        HostInsn::Neg => "                      ; Negate (0-rs2)"@,
        HostInsn::Store { rd } => " ; Store to x"@ + dec(rd as nat) + note_text(note),
    }
}

/// One line of a fragment: a line break, the indentation, the instruction and its comment.
pub open spec fn line_text(line: Line) -> Seq<char> {
    "\n    "@ + insn_text(line.insn) + comment_text(line.insn, line.note)
}

/// The text of the first `n` lines.
pub open spec fn lines_text_upto(lines: Seq<Line>, n: int) -> Seq<char>
    decreases n,
{
    if n <= 0 {
        Seq::empty()
    } else {
        lines_text_upto(lines, n - 1) + line_text(lines[n - 1])
    }
}

/// The text of all lines.
pub open spec fn lines_text(lines: Seq<Line>) -> Seq<char> {
    lines_text_upto(lines, lines.len() as int)
}

pub fn mnemonic_str(op: BaseAluOpcode) -> (name: &'static str)
    ensures
        name@ == mnemonic(op),
{
    match op {
        BaseAluOpcode::ADD => "add",
        BaseAluOpcode::SUB => "sub",
        BaseAluOpcode::XOR => "xor",
        BaseAluOpcode::OR => "or",
        BaseAluOpcode::AND => "and",
    }
}

pub fn symbol_str(op: BaseAluOpcode) -> (sign: &'static str)
    ensures
        sign@ == symbol(op),
{
    match op {
        BaseAluOpcode::ADD => "+",
        BaseAluOpcode::SUB => "-",
        BaseAluOpcode::XOR => "^",
        BaseAluOpcode::OR => "|",
        BaseAluOpcode::AND => "&",
    }
}

fn imm_comment_str(op: BaseAluOpcode) -> (comment: &'static str)
    ensures
        comment@ == imm_comment(op),
{
    match op {
        BaseAluOpcode::ADD => "                  ; Add immediate",
        BaseAluOpcode::SUB => "                  ; Subtract immediate",
        BaseAluOpcode::XOR => "                  ; XOR immediate",
        BaseAluOpcode::OR => "                   ; OR immediate",
        BaseAluOpcode::AND => "                  ; AND immediate",
    }
}

fn reg_comment_str(op: BaseAluOpcode) -> (comment: &'static str)
    ensures
        comment@ == reg_comment(op),
{
    match op {
        BaseAluOpcode::ADD => " ; Add x",
        BaseAluOpcode::SUB => " ; Subtract x",
        BaseAluOpcode::XOR => " ; XOR x",
        BaseAluOpcode::OR => "  ; OR x",
        BaseAluOpcode::AND => " ; AND x",
    }
}

/// Appends the decimal byte offset of a slot.
fn push_slot_offset(text: &mut String, reg: u8)
    ensures
        final(text)@ == old(text)@ + dec(slot_offset(reg)),
{
    let offset: u64 = 4 * (reg as u64);
    push_dec(text, offset);
}

/// Appends the assembly text of a host instruction.
pub fn push_insn(text: &mut String, insn: HostInsn)
    ensures
        final(text)@ == old(text)@ + insn_text(insn),
{
    match insn {
        HostInsn::StoreImm { rd, imm } => {
            text.append("mov dword ptr [rbx + ");
            push_slot_offset(text, rd);
            text.append("], ");
            push_signed_dec(text, imm as i64);
        },
        HostInsn::StoreWord { rd, value } => {
            text.append("mov dword ptr [rbx + ");
            push_slot_offset(text, rd);
            text.append("], ");
            push_dec(text, value as u64);
        },
        HostInsn::Load { rs } => {
            text.append("mov r15d, dword ptr [rbx + ");
            push_slot_offset(text, rs);
            text.append("]");
        },
        HostInsn::AluImm { op, imm } => {
            text.append(mnemonic_str(op));
            text.append(" r15d, ");
            push_signed_dec(text, imm as i64);
        },
        HostInsn::AluReg { op, rs } => {
            text.append(mnemonic_str(op));
            text.append(" r15d, dword ptr [rbx + ");
            push_slot_offset(text, rs);
            text.append("]");
        },
        HostInsn::Neg => {
            text.append("neg r15d");
        },
        HostInsn::Store { rd } => {
            text.append("mov dword ptr [rbx + ");
            push_slot_offset(text, rd);
            text.append("], r15d");
        },
    }
    assert(final(text)@ =~= old(text)@ + insn_text(insn));
}

/// Appends the text of a note.
pub fn push_note(text: &mut String, note: Note)
    ensures
        final(text)@ == old(text)@ + note_text(note),
{
    match note {
        Note::Plain => {},
        Note::Value(imm) => {
            push_signed_dec(text, imm as i64);
        },
        Note::ZeroWithImm(op, imm) => {
            text.append("0");
            text.append(symbol_str(op));
            push_signed_dec(text, imm as i64);
            if op == BaseAluOpcode::AND {
                text.append(" = 0");
            }
        },
        Note::ZeroWithZero(op) => {
            text.append("0");
            text.append(symbol_str(op));
            text.append("0");
        },
        Note::AndWithZero => {
            text.append("X&0 = 0");
        },
        Note::ZeroFirst(op) => {
            text.append(" (0");
            text.append(symbol_str(op));
            text.append("rs2 = rs2)");
        },
        Note::ZeroSecond(op) => {
            text.append(" (rs1");
            text.append(symbol_str(op));
            text.append("0 = rs1)");
        },
    }
    assert(final(text)@ =~= old(text)@ + note_text(note));
}

/// Appends the comment behind a host instruction.
pub fn push_comment(text: &mut String, insn: HostInsn, note: Note)
    ensures
        final(text)@ == old(text)@ + comment_text(insn, note),
{
    match insn {
        HostInsn::StoreImm { rd, imm } => {
            text.append("  ; x");
            push_dec(text, rd as u64);
            text.append(" = ");
            push_note(text, note);
        },
        HostInsn::StoreWord { rd, value } => {
            text.append("  ; x");
            push_dec(text, rd as u64);
            text.append(" = ");
            push_note(text, note);
        },
        HostInsn::Load { rs } => {
            text.append(" ; Load x");
            push_dec(text, rs as u64);
        },
        HostInsn::AluImm { op, imm } => {
            text.append(imm_comment_str(op));
        },
        HostInsn::AluReg { op, rs } => {
            text.append(reg_comment_str(op));
            push_dec(text, rs as u64);
        },
        HostInsn::Neg => {
            text.append("                      ; Negate (0-rs2)");
        },
        HostInsn::Store { rd } => {
            text.append(" ; Store to x");
            push_dec(text, rd as u64);
            push_note(text, note);
        },
    }
    assert(final(text)@ =~= old(text)@ + comment_text(insn, note));
}

/// Appends one line of a fragment.
pub fn push_line(text: &mut String, line: Line)
    ensures
        final(text)@ == old(text)@ + line_text(line),
{
    text.append("\n    ");
    push_insn(text, line.insn);
    push_comment(text, line.insn, line.note);
    assert(final(text)@ =~= old(text)@ + line_text(line));
}

/// Appends the lines of a fragment in order.
pub fn push_lines(text: &mut String, lines: &Vec<Line>)
    ensures
        final(text)@ == old(text)@ + lines_text(lines@),
{
    let mut i: usize = 0;
    assert(text@ =~= old(text)@ + lines_text_upto(lines@, 0));
    while i < lines.len()
        invariant
            i <= lines@.len(),
            text@ == old(text)@ + lines_text_upto(lines@, i as int),
        decreases lines@.len() - i,
    {
        let ghost before = text@;
        push_line(text, lines[i]);
        i = i + 1;
        assert(text@ =~= old(text)@ + lines_text_upto(lines@, i as int));
    }
}

/// The register buffer and the scratch register.
pub ghost struct HostState {
    pub regs: Seq<u32>,
    pub scratch: u32,
}

/// The word that an immediate stands for: its value in two's complement.
pub open spec fn imm_value(imm: i32) -> u32 {
    if imm >= 0 {
        imm as u32
    } else {
        (imm + 0x1_0000_0000) as u32
    }
}

/// The result of a base ALU operation on two words; sums and differences wrap.
pub open spec fn alu(op: BaseAluOpcode, x: u32, y: u32) -> u32 {
    match op {
        BaseAluOpcode::ADD => if x + y > u32::MAX {
            (x + y - 0x1_0000_0000) as u32
        } else {
            (x + y) as u32
        },
        BaseAluOpcode::SUB => if x < y {
            (x - y + 0x1_0000_0000) as u32
        } else {
            (x - y) as u32
        },
        BaseAluOpcode::XOR => x ^ y,
        BaseAluOpcode::OR => x | y,
        BaseAluOpcode::AND => x & y,
    }
}

/// Whether every slot that the instruction names lies in the register buffer.
pub open spec fn slots_in_buffer(insn: HostInsn) -> bool {
    match insn {
        HostInsn::StoreImm { rd, imm } => rd < NUM_REGISTERS,
        HostInsn::StoreWord { rd, value } => rd < NUM_REGISTERS,
        HostInsn::Load { rs } => rs < NUM_REGISTERS,
        HostInsn::AluImm { op, imm } => true,
        HostInsn::AluReg { op, rs } => rs < NUM_REGISTERS,
        HostInsn::Neg => true,
        HostInsn::Store { rd } => rd < NUM_REGISTERS,
    }
}

/// The buffer after a store to slot `rd`. A store outside the buffer is no
/// part of this model and leaves the buffer as it is.
pub open spec fn store(regs: Seq<u32>, rd: u8, word: u32) -> Seq<u32> {
    if rd < regs.len() {
        regs.update(rd as int, word)
    } else {
        regs
    }
}

/// The effect of one host instruction.
pub open spec fn step(insn: HostInsn, state: HostState) -> HostState {
    match insn {
        HostInsn::StoreImm { rd, imm } => HostState {
            regs: store(state.regs, rd, imm_value(imm)),
            ..state
        },
        HostInsn::StoreWord { rd, value } => HostState {
            regs: store(state.regs, rd, value),
            ..state
        },
        HostInsn::Load { rs } => HostState { scratch: state.regs[rs as int], ..state },
        HostInsn::AluImm { op, imm } => HostState {
            scratch: alu(op, state.scratch, imm_value(imm)),
            ..state
        },
        HostInsn::AluReg { op, rs } => HostState {
            scratch: alu(op, state.scratch, state.regs[rs as int]),
            ..state
        },
        HostInsn::Neg => HostState { scratch: alu(BaseAluOpcode::SUB, 0, state.scratch), ..state },
        HostInsn::Store { rd } => HostState { regs: store(state.regs, rd, state.scratch), ..state },
    }
}

/// The state after the first `n` lines.
pub open spec fn run_upto(lines: Seq<Line>, state: HostState, n: int) -> HostState
    decreases n,
{
    if n <= 0 {
        state
    } else {
        step(lines[n - 1].insn, run_upto(lines, state, n - 1))
    }
}

/// The state after all lines.
pub open spec fn run(lines: Seq<Line>, state: HostState) -> HostState {
    run_upto(lines, state, lines.len() as int)
}

/// The word that an immediate stands for.
pub fn imm_word(imm: i32) -> (word: u32)
    ensures
        word == imm_value(imm),
{
    if imm >= 0 {
        imm as u32
    } else {
        (imm as i64 + 0x1_0000_0000) as u32
    }
}

/// Computes a base ALU operation on two words.
pub fn alu_word(op: BaseAluOpcode, x: u32, y: u32) -> (word: u32)
    ensures
        word == alu(op, x, y),
{
    match op {
        BaseAluOpcode::ADD => x.wrapping_add(y),
        BaseAluOpcode::SUB => x.wrapping_sub(y),
        BaseAluOpcode::XOR => x ^ y,
        BaseAluOpcode::OR => x | y,
        BaseAluOpcode::AND => x & y,
    }
}

/// Carries out the lines of a fragment on a register buffer, as the generated
/// code does on the buffer of the host. The scratch register starts at zero.
pub fn execute_lines(lines: &Vec<Line>, registers: &mut [u32; 32])
    requires
        forall|i: int| 0 <= i < lines@.len() ==> slots_in_buffer(#[trigger] lines@[i].insn),
    ensures
        final(registers)@ == run(lines@, HostState { regs: old(registers)@, scratch: 0 }).regs,
{
    let ghost start = HostState { regs: registers@, scratch: 0 };
    let mut scratch: u32 = 0;
    let mut i: usize = 0;
    while i < lines.len()
        invariant
            i <= lines@.len(),
            forall|k: int| 0 <= k < lines@.len() ==> slots_in_buffer(#[trigger] lines@[k].insn),
            (HostState { regs: registers@, scratch }) == run_upto(lines@, start, i as int),
        decreases lines@.len() - i,
    {
        let insn = lines[i].insn;
        assert(slots_in_buffer(lines@[i as int].insn));
        match insn {
            HostInsn::StoreImm { rd, imm } => {
                registers.set(rd as usize, imm_word(imm));
            },
            HostInsn::StoreWord { rd, value } => {
                registers.set(rd as usize, value);
            },
            HostInsn::Load { rs } => {
                scratch = registers[rs as usize];
            },
            HostInsn::AluImm { op, imm } => {
                scratch = alu_word(op, scratch, imm_word(imm));
            },
            HostInsn::AluReg { op, rs } => {
                scratch = alu_word(op, scratch, registers[rs as usize]);
            },
            HostInsn::Neg => {
                scratch = alu_word(BaseAluOpcode::SUB, 0, scratch);
            },
            HostInsn::Store { rd } => {
                registers.set(rd as usize, scratch);
            },
        }
        i = i + 1;
    }
}

} // verus!
