//! The shape of a fragment: straight-line code.
//!
//! A fragment must leave the program counter and the count of retired
//! instructions to the housekeeping that the compiler writes around it. The
//! host instructions it is made of have no effect on either. Here the same is
//! said of its text: it holds no colon, so it defines no label, and neither the
//! letter `j` nor the letter `l`, so it holds no jump, no call and no loop
//! instruction; and it names none of the registers through which the two cells
//! are reached.

use vstd::prelude::*;
use crate::base_alu::{fragment_text, header_text, spec_lower, Operand};
use crate::host::{
    comment_text, imm_comment, insn_text, line_text, lines_text, lines_text_upto, mnemonic,
    note_text, reg_comment, symbol, HostInsn, Line, Note,
};
use crate::instruction::BaseAluOpcode;
use crate::text::{dec, dec_digits, signed_dec};

verus! {

/// Whether a character may stand in straight-line code: any but the colon and
/// the letters `j` and `l`.
pub open spec fn plain_char(c: char) -> bool {
    c != ':' && c != 'j' && c != 'l'
}

/// Whether a text holds plain characters only.
pub open spec fn plain(text: Seq<char>) -> bool {
    forall|i: int| 0 <= i < text.len() ==> plain_char(#[trigger] text[i])
}

/// Whether the first `n` characters of a text are plain.
pub open spec fn plain_upto(text: Seq<char>, n: int) -> bool
    decreases n,
{
    n <= 0 || (plain_char(text[n - 1]) && plain_upto(text, n - 1))
}

/// A text whose characters are plain one by one is plain.
pub proof fn lemma_plain_upto(text: Seq<char>, n: int)
    requires
        n == text.len(),
        plain_upto(text, n),
    ensures
        plain(text),
{
    assert forall|i: int| 0 <= i < text.len() implies plain_char(#[trigger] text[i]) by {
        lemma_plain_upto_index(text, n, i);
    }
}

/// Among the first `n` characters that are plain one by one, each is plain.
pub proof fn lemma_plain_upto_index(text: Seq<char>, n: int, i: int)
    requires
        plain_upto(text, n),
        0 <= i < n,
    ensures
        plain_char(text[i]),
    decreases n,
{
    if i < n - 1 {
        lemma_plain_upto_index(text, n - 1, i);
    }
}

/// Two plain texts in a row are plain.
pub proof fn lemma_plain_concat(a: Seq<char>, b: Seq<char>)
    requires
        plain(a),
        plain(b),
    ensures
        plain(a + b),
{
    assert forall|i: int| 0 <= i < (a + b).len() implies plain_char(#[trigger] (a + b)[i]) by {
        if i < a.len() {
            assert((a + b)[i] == a[i]);
        } else {
            assert((a + b)[i] == b[i - a.len()]);
        }
    }
}

/// A decimal numeral is plain.
pub proof fn lemma_plain_dec(n: nat)
    ensures
        plain(dec(n)),
    decreases n,
{
    if n >= 10 {
        lemma_plain_dec(n / 10);
        assert forall|i: int| 0 <= i < dec(n).len() implies plain_char(#[trigger] dec(n)[i]) by {
            if i < dec(n / 10).len() {
                assert(dec(n)[i] == dec(n / 10)[i]);
            }
        }
    }
}

/// A decimal numeral with its sign is plain.
pub proof fn lemma_plain_signed_dec(i: int)
    ensures
        plain(signed_dec(i)),
{
    if i < 0 {
        lemma_plain_dec((-i) as nat);
        assert(plain(seq!['-']));
        lemma_plain_concat(seq!['-'], dec((-i) as nat));
    } else {
        lemma_plain_dec(i as nat);
    }
}

/// The literal pieces of a fragment (header) are plain.
proof fn lemma_plain_header_literals()
    ensures
        plain("    ; "@),
        plain("i x"@),
        plain(" x"@),
        plain(", x"@),
        plain(", "@),
        plain(" (rd=rs1"@),
        plain("imm)"@),
        plain("rs2)"@),
        plain("\n    "@),
{
    reveal_with_fuel(plain_upto, 10);
    reveal_strlit("    ; ");
    lemma_plain_upto("    ; "@, 6);
    reveal_strlit("i x");
    lemma_plain_upto("i x"@, 3);
    reveal_strlit(" x");
    lemma_plain_upto(" x"@, 2);
    reveal_strlit(", x");
    lemma_plain_upto(", x"@, 3);
    reveal_strlit(", ");
    lemma_plain_upto(", "@, 2);
    reveal_strlit(" (rd=rs1");
    lemma_plain_upto(" (rd=rs1"@, 8);
    reveal_strlit("imm)");
    lemma_plain_upto("imm)"@, 4);
    reveal_strlit("rs2)");
    lemma_plain_upto("rs2)"@, 4);
    reveal_strlit("\n    ");
    lemma_plain_upto("\n    "@, 5);
}

/// The literal pieces of a fragment (mnemonic) are plain.
proof fn lemma_plain_mnemonic_literals()
    ensures
        plain("add"@),
        plain("sub"@),
        plain("xor"@),
        plain("or"@),
        plain("and"@),
{
    reveal_with_fuel(plain_upto, 5);
    reveal_strlit("add");
    lemma_plain_upto("add"@, 3);
    reveal_strlit("sub");
    lemma_plain_upto("sub"@, 3);
    reveal_strlit("xor");
    lemma_plain_upto("xor"@, 3);
    reveal_strlit("or");
    lemma_plain_upto("or"@, 2);
    reveal_strlit("and");
    lemma_plain_upto("and"@, 3);
}

/// The literal pieces of a fragment (symbol) are plain.
proof fn lemma_plain_symbol_literals()
    ensures
        plain("+"@),
        plain("-"@),
        plain("^"@),
        plain("|"@),
        plain("&"@),
{
    reveal_with_fuel(plain_upto, 3);
    reveal_strlit("+");
    lemma_plain_upto("+"@, 1);
    reveal_strlit("-");
    lemma_plain_upto("-"@, 1);
    reveal_strlit("^");
    lemma_plain_upto("^"@, 1);
    reveal_strlit("|");
    lemma_plain_upto("|"@, 1);
    reveal_strlit("&");
    lemma_plain_upto("&"@, 1);
}

/// The literal pieces of a fragment (insn) are plain.
proof fn lemma_plain_insn_literals()
    ensures
        plain("mov dword ptr [rbx + "@),
        plain("], "@),
        plain("mov r15d, dword ptr [rbx + "@),
        plain("]"@),
        plain(" r15d, "@),
        plain(" r15d, dword ptr [rbx + "@),
        plain("neg r15d"@),
        plain("], r15d"@),
{
    reveal_with_fuel(plain_upto, 29);
    reveal_strlit("mov dword ptr [rbx + ");
    lemma_plain_upto("mov dword ptr [rbx + "@, 21);
    reveal_strlit("], ");
    lemma_plain_upto("], "@, 3);
    reveal_strlit("mov r15d, dword ptr [rbx + ");
    lemma_plain_upto("mov r15d, dword ptr [rbx + "@, 27);
    reveal_strlit("]");
    lemma_plain_upto("]"@, 1);
    reveal_strlit(" r15d, ");
    lemma_plain_upto(" r15d, "@, 7);
    reveal_strlit(" r15d, dword ptr [rbx + ");
    lemma_plain_upto(" r15d, dword ptr [rbx + "@, 24);
    reveal_strlit("neg r15d");
    lemma_plain_upto("neg r15d"@, 8);
    reveal_strlit("], r15d");
    lemma_plain_upto("], r15d"@, 7);
}

/// The literal pieces of a fragment (comment) are plain.
proof fn lemma_plain_comment_literals()
    ensures
        plain("  ; x"@),
        plain(" = "@),
        plain(" ; Load x"@),
        plain("                      ; Negate (0-rs2)"@),
        plain(" ; Store to x"@),
{
    reveal_with_fuel(plain_upto, 40);
    reveal_strlit("  ; x");
    lemma_plain_upto("  ; x"@, 5);
    reveal_strlit(" = ");
    lemma_plain_upto(" = "@, 3);
    reveal_strlit(" ; Load x");
    lemma_plain_upto(" ; Load x"@, 9);
    reveal_strlit("                      ; Negate (0-rs2)");
    lemma_plain_upto("                      ; Negate (0-rs2)"@, 38);
    reveal_strlit(" ; Store to x");
    lemma_plain_upto(" ; Store to x"@, 13);
}

/// The literal pieces of a fragment (imm comment) are plain.
proof fn lemma_plain_imm_comment_literals()
    ensures
        plain("                  ; Add immediate"@),
        plain("                  ; Subtract immediate"@),
        plain("                  ; XOR immediate"@),
        plain("                   ; OR immediate"@),
        plain("                  ; AND immediate"@),
{
    reveal_with_fuel(plain_upto, 40);
    reveal_strlit("                  ; Add immediate");
    lemma_plain_upto("                  ; Add immediate"@, 33);
    reveal_strlit("                  ; Subtract immediate");
    lemma_plain_upto("                  ; Subtract immediate"@, 38);
    reveal_strlit("                  ; XOR immediate");
    lemma_plain_upto("                  ; XOR immediate"@, 33);
    reveal_strlit("                   ; OR immediate");
    lemma_plain_upto("                   ; OR immediate"@, 33);
    reveal_strlit("                  ; AND immediate");
    lemma_plain_upto("                  ; AND immediate"@, 33);
}

/// The literal pieces of a fragment (reg comment) are plain.
proof fn lemma_plain_reg_comment_literals()
    ensures
        plain(" ; Add x"@),
        plain(" ; Subtract x"@),
        plain(" ; XOR x"@),
        plain("  ; OR x"@),
        plain(" ; AND x"@),
{
    reveal_with_fuel(plain_upto, 15);
    reveal_strlit(" ; Add x");
    lemma_plain_upto(" ; Add x"@, 8);
    reveal_strlit(" ; Subtract x");
    lemma_plain_upto(" ; Subtract x"@, 13);
    reveal_strlit(" ; XOR x");
    lemma_plain_upto(" ; XOR x"@, 8);
    reveal_strlit("  ; OR x");
    lemma_plain_upto("  ; OR x"@, 8);
    reveal_strlit(" ; AND x");
    lemma_plain_upto(" ; AND x"@, 8);
}

/// The literal pieces of a fragment (note) are plain.
proof fn lemma_plain_note_literals()
    ensures
        plain("0"@),
        plain(" = 0"@),
        plain("X&0 = 0"@),
        plain(" (0"@),
        plain("rs2 = rs2)"@),
        plain(" (rs1"@),
        plain("0 = rs1)"@),
{
    reveal_with_fuel(plain_upto, 12);
    reveal_strlit("0");
    lemma_plain_upto("0"@, 1);
    reveal_strlit(" = 0");
    lemma_plain_upto(" = 0"@, 4);
    reveal_strlit("X&0 = 0");
    lemma_plain_upto("X&0 = 0"@, 7);
    reveal_strlit(" (0");
    lemma_plain_upto(" (0"@, 3);
    reveal_strlit("rs2 = rs2)");
    lemma_plain_upto("rs2 = rs2)"@, 10);
    reveal_strlit(" (rs1");
    lemma_plain_upto(" (rs1"@, 5);
    reveal_strlit("0 = rs1)");
    lemma_plain_upto("0 = rs1)"@, 8);
}
/// The text of a host instruction is plain.
pub proof fn lemma_plain_insn(insn: HostInsn)
    ensures
        plain(insn_text(insn)),
{
    lemma_plain_insn_literals();
    lemma_plain_mnemonic_literals();
    match insn {
        HostInsn::StoreImm { rd, imm } => {
            lemma_plain_dec(crate::host::slot_offset(rd));
            lemma_plain_signed_dec(imm as int);
            lemma_plain_concat("mov dword ptr [rbx + "@, dec(crate::host::slot_offset(rd)));
            lemma_plain_concat(
                "mov dword ptr [rbx + "@ + dec(crate::host::slot_offset(rd)),
                "], "@,
            );
            lemma_plain_concat(
                "mov dword ptr [rbx + "@ + dec(crate::host::slot_offset(rd)) + "], "@,
                signed_dec(imm as int),
            );
        },
        HostInsn::StoreWord { rd, value } => {
            lemma_plain_dec(crate::host::slot_offset(rd));
            lemma_plain_dec(value as nat);
            lemma_plain_concat("mov dword ptr [rbx + "@, dec(crate::host::slot_offset(rd)));
            lemma_plain_concat(
                "mov dword ptr [rbx + "@ + dec(crate::host::slot_offset(rd)),
                "], "@,
            );
            lemma_plain_concat(
                "mov dword ptr [rbx + "@ + dec(crate::host::slot_offset(rd)) + "], "@,
                dec(value as nat),
            );
        },
        HostInsn::Load { rs } => {
            lemma_plain_dec(crate::host::slot_offset(rs));
            lemma_plain_concat("mov r15d, dword ptr [rbx + "@, dec(crate::host::slot_offset(rs)));
            lemma_plain_concat(
                "mov r15d, dword ptr [rbx + "@ + dec(crate::host::slot_offset(rs)),
                "]"@,
            );
        },
        HostInsn::AluImm { op, imm } => {
            lemma_plain_signed_dec(imm as int);
            lemma_plain_concat(mnemonic(op), " r15d, "@);
            lemma_plain_concat(mnemonic(op) + " r15d, "@, signed_dec(imm as int));
        },
        HostInsn::AluReg { op, rs } => {
            lemma_plain_dec(crate::host::slot_offset(rs));
            lemma_plain_concat(mnemonic(op), " r15d, dword ptr [rbx + "@);
            lemma_plain_concat(
                mnemonic(op) + " r15d, dword ptr [rbx + "@,
                dec(crate::host::slot_offset(rs)),
            );
            lemma_plain_concat(
                mnemonic(op) + " r15d, dword ptr [rbx + "@ + dec(crate::host::slot_offset(rs)),
                "]"@,
            );
        },
        HostInsn::Neg => {},
        HostInsn::Store { rd } => {
            lemma_plain_dec(crate::host::slot_offset(rd));
            lemma_plain_concat("mov dword ptr [rbx + "@, dec(crate::host::slot_offset(rd)));
            lemma_plain_concat(
                "mov dword ptr [rbx + "@ + dec(crate::host::slot_offset(rd)),
                "], r15d"@,
            );
        },
    }
}

/// The text of a note is plain.
pub proof fn lemma_plain_note(note: Note)
    ensures
        plain(note_text(note)),
{
    lemma_plain_note_literals();
    lemma_plain_symbol_literals();
    match note {
        Note::Plain => {},
        Note::Value(imm) => {
            lemma_plain_signed_dec(imm as int);
        },
        Note::ZeroWithImm(op, imm) => {
            lemma_plain_signed_dec(imm as int);
            lemma_plain_concat("0"@, symbol(op));
            lemma_plain_concat("0"@ + symbol(op), signed_dec(imm as int));
            let tail = if op == BaseAluOpcode::AND {
                " = 0"@
            } else {
                Seq::<char>::empty()
            };
            lemma_plain_concat("0"@ + symbol(op) + signed_dec(imm as int), tail);
        },
        Note::ZeroWithZero(op) => {
            lemma_plain_concat("0"@, symbol(op));
            lemma_plain_concat("0"@ + symbol(op), "0"@);
        },
        Note::AndWithZero => {},
        Note::ZeroFirst(op) => {
            lemma_plain_concat(" (0"@, symbol(op));
            lemma_plain_concat(" (0"@ + symbol(op), "rs2 = rs2)"@);
        },
        Note::ZeroSecond(op) => {
            lemma_plain_concat(" (rs1"@, symbol(op));
            lemma_plain_concat(" (rs1"@ + symbol(op), "0 = rs1)"@);
        },
    }
}

/// The comment behind a host instruction is plain.
pub proof fn lemma_plain_comment(insn: HostInsn, note: Note)
    ensures
        plain(comment_text(insn, note)),
{
    lemma_plain_comment_literals();
    lemma_plain_imm_comment_literals();
    lemma_plain_reg_comment_literals();
    lemma_plain_note(note);
    match insn {
        HostInsn::StoreImm { rd, imm } => {
            lemma_plain_dec(rd as nat);
            lemma_plain_concat("  ; x"@, dec(rd as nat));
            lemma_plain_concat("  ; x"@ + dec(rd as nat), " = "@);
            lemma_plain_concat("  ; x"@ + dec(rd as nat) + " = "@, note_text(note));
        },
        HostInsn::StoreWord { rd, value } => {
            lemma_plain_dec(rd as nat);
            lemma_plain_concat("  ; x"@, dec(rd as nat));
            lemma_plain_concat("  ; x"@ + dec(rd as nat), " = "@);
            lemma_plain_concat("  ; x"@ + dec(rd as nat) + " = "@, note_text(note));
        },
        HostInsn::Load { rs } => {
            lemma_plain_dec(rs as nat);
            lemma_plain_concat(" ; Load x"@, dec(rs as nat));
        },
        HostInsn::AluImm { op, imm } => {},
        HostInsn::AluReg { op, rs } => {
            lemma_plain_dec(rs as nat);
            lemma_plain_concat(reg_comment(op), dec(rs as nat));
        },
        HostInsn::Neg => {},
        HostInsn::Store { rd } => {
            lemma_plain_dec(rd as nat);
            lemma_plain_concat(" ; Store to x"@, dec(rd as nat));
            lemma_plain_concat(" ; Store to x"@ + dec(rd as nat), note_text(note));
        },
    }
}

/// The first `n` lines of a fragment are plain.
pub proof fn lemma_plain_lines(lines: Seq<Line>, n: int)
    ensures
        plain(lines_text_upto(lines, n)),
    decreases n,
{
    if n > 0 {
        lemma_plain_lines(lines, n - 1);
        let line = lines[n - 1];
        lemma_plain_header_literals();
        lemma_plain_insn(line.insn);
        lemma_plain_comment(line.insn, line.note);
        lemma_plain_concat("\n    "@, insn_text(line.insn));
        lemma_plain_concat("\n    "@ + insn_text(line.insn), comment_text(line.insn, line.note));
        lemma_plain_concat(lines_text_upto(lines, n - 1), line_text(line));
    }
}

/// The comment line that heads a fragment is plain.
pub proof fn lemma_plain_header(op: BaseAluOpcode, rd: u8, rs1: u8, operand: Operand)
    ensures
        plain(header_text(op, rd, rs1, operand)),
{
    lemma_plain_header_literals();
    lemma_plain_mnemonic_literals();
    lemma_plain_symbol_literals();
    lemma_plain_dec(rd as nat);
    lemma_plain_dec(rs1 as nat);
    let start = "    ; "@ + mnemonic(op);
    lemma_plain_concat("    ; "@, mnemonic(op));
    match operand {
        Operand::Imm(imm) => {
            lemma_plain_signed_dec(imm as int);
            lemma_plain_concat(start, "i x"@);
            lemma_plain_concat(start + "i x"@, dec(rd as nat));
            lemma_plain_concat(start + "i x"@ + dec(rd as nat), ", x"@);
            lemma_plain_concat(start + "i x"@ + dec(rd as nat) + ", x"@, dec(rs1 as nat));
            let names = start + "i x"@ + dec(rd as nat) + ", x"@ + dec(rs1 as nat);
            lemma_plain_concat(names, ", "@);
            lemma_plain_concat(names + ", "@, signed_dec(imm as int));
            lemma_plain_concat(names + ", "@ + signed_dec(imm as int), " (rd=rs1"@);
            lemma_plain_concat(names + ", "@ + signed_dec(imm as int) + " (rd=rs1"@, symbol(op));
            lemma_plain_concat(
                names + ", "@ + signed_dec(imm as int) + " (rd=rs1"@ + symbol(op),
                "imm)"@,
            );
        },
        Operand::Reg(rs2) => {
            lemma_plain_dec(rs2 as nat);
            lemma_plain_concat(start, " x"@);
            lemma_plain_concat(start + " x"@, dec(rd as nat));
            lemma_plain_concat(start + " x"@ + dec(rd as nat), ", x"@);
            lemma_plain_concat(start + " x"@ + dec(rd as nat) + ", x"@, dec(rs1 as nat));
            let names = start + " x"@ + dec(rd as nat) + ", x"@ + dec(rs1 as nat);
            lemma_plain_concat(names, ", x"@);
            lemma_plain_concat(names + ", x"@, dec(rs2 as nat));
            lemma_plain_concat(names + ", x"@ + dec(rs2 as nat), " (rd=rs1"@);
            lemma_plain_concat(names + ", x"@ + dec(rs2 as nat) + " (rd=rs1"@, symbol(op));
            lemma_plain_concat(
                names + ", x"@ + dec(rs2 as nat) + " (rd=rs1"@ + symbol(op),
                "rs2)"@,
            );
        },
    }
}

/// A fragment is straight-line code. Whatever the instruction, the text of its
/// fragment holds no colon and neither the letter `j` nor the letter `l`: it
/// defines no label and holds no jump, call or loop instruction, so control
/// leaves it at its end, and the housekeeping behind it is what advances the
/// program counter and counts the instruction.
pub proof fn lemma_fragment_is_straight_line(op: BaseAluOpcode, rd: u8, rs1: u8, operand: Operand)
    ensures
        plain(fragment_text(op, rd, rs1, operand)),
        forall|i: int|
            0 <= i < fragment_text(op, rd, rs1, operand).len() ==> {
                &&& (#[trigger] fragment_text(op, rd, rs1, operand)[i]) != ':'
                &&& fragment_text(op, rd, rs1, operand)[i] != 'j'
                &&& fragment_text(op, rd, rs1, operand)[i] != 'l'
            },
{
    let lines = spec_lower(op, rd, rs1, operand);
    lemma_plain_header(op, rd, rs1, operand);
    lemma_plain_lines(lines, lines.len() as int);
    lemma_plain_concat(header_text(op, rd, rs1, operand), lines_text(lines));
}

/// Whether the two characters behind an `r` go on with a name that a fragment
/// may hold: the buffer base `rbx`, the scratch register `r15d`, or a word of a
/// comment. The names of the cells of program counter and instruction count
/// (`r14`, `rsi`, `rdx`) do not go on so.
pub open spec fn name_goes_on(second: char, third: char) -> bool {
    ||| second == 'b'
    ||| second == '1' && third == '5'
    ||| second == 'd' && (third == ' ' || third == '=')
    ||| second == 's' && (third == '1' || third == '2')
    ||| second == ' '
    ||| second == 'e'
    ||| second == 'a'
    ||| second == 'i'
}

/// Whether the character at `k` is no `r`, or an `r` that two characters
/// follow with which the name goes on as allowed.
pub open spec fn named_at(text: Seq<char>, k: int) -> bool {
    text[k] != 'r' || (k + 2 < text.len() && name_goes_on(text[k + 1], text[k + 2]))
}

/// Whether every `r` of a text starts an allowed name.
pub open spec fn named(text: Seq<char>) -> bool {
    forall|k: int| 0 <= k < text.len() ==> #[trigger] named_at(text, k)
}

/// Whether every `r` among the first `n` characters starts an allowed name.
pub open spec fn named_upto(text: Seq<char>, n: int) -> bool
    decreases n,
{
    n <= 0 || (named_at(text, n - 1) && named_upto(text, n - 1))
}

/// A text whose names are allowed one by one holds allowed names only.
pub proof fn lemma_named_upto(text: Seq<char>, n: int)
    requires
        n == text.len(),
        named_upto(text, n),
    ensures
        named(text),
{
    assert forall|k: int| 0 <= k < text.len() implies #[trigger] named_at(text, k) by {
        lemma_named_upto_index(text, n, k);
    }
}

/// Among the first `n` characters with allowed names one by one, each has one.
pub proof fn lemma_named_upto_index(text: Seq<char>, n: int, k: int)
    requires
        named_upto(text, n),
        0 <= k < n,
    ensures
        named_at(text, k),
    decreases n,
{
    if k < n - 1 {
        lemma_named_upto_index(text, n - 1, k);
    }
}

/// Two texts with allowed names only, in a row, hold allowed names only: a
/// name never runs from one into the other.
pub proof fn lemma_named_concat(a: Seq<char>, b: Seq<char>)
    requires
        named(a),
        named(b),
    ensures
        named(a + b),
{
    assert forall|k: int| 0 <= k < (a + b).len() implies #[trigger] named_at(a + b, k) by {
        if k < a.len() {
            assert(named_at(a, k));
            if a[k] == 'r' {
                assert((a + b)[k] == a[k]);
                assert((a + b)[k + 1] == a[k + 1]);
                assert((a + b)[k + 2] == a[k + 2]);
            }
        } else {
            assert(named_at(b, k - a.len()));
            assert((a + b)[k] == b[k - a.len()]);
            if b[k - a.len()] == 'r' {
                assert((a + b)[k + 1] == b[k + 1 - a.len()]);
                assert((a + b)[k + 2] == b[k + 2 - a.len()]);
            }
        }
    }
}

/// A decimal numeral holds no `r`.
pub proof fn lemma_named_dec(n: nat)
    ensures
        named(dec(n)),
        forall|k: int| 0 <= k < dec(n).len() ==> dec(n)[k] != 'r',
    decreases n,
{
    if n >= 10 {
        lemma_named_dec(n / 10);
        assert forall|k: int| 0 <= k < dec(n).len() implies dec(n)[k] != 'r' by {
            if k < dec(n / 10).len() {
                assert(dec(n)[k] == dec(n / 10)[k]);
            }
        }
    }
    assert forall|k: int| 0 <= k < dec(n).len() implies #[trigger] named_at(dec(n), k) by {
    }
}

/// A decimal numeral with its sign holds no `r`.
pub proof fn lemma_named_signed_dec(i: int)
    ensures
        named(signed_dec(i)),
{
    if i < 0 {
        lemma_named_dec((-i) as nat);
        assert(named(seq!['-'])) by {
            assert forall|k: int| 0 <= k < 1 implies #[trigger] named_at(seq!['-'], k) by {
            }
        }
        lemma_named_concat(seq!['-'], dec((-i) as nat));
    } else {
        lemma_named_dec(i as nat);
    }
}

/// In the literal pieces of a fragment (header), every `r` starts a name that a fragment may hold.
proof fn lemma_named_header_literals()
    ensures
        named("    ; "@),
        named(", x"@),
        named(", "@),
        named(" (rd=rs1"@),
        named("imm)"@),
        named("rs2)"@),
        named("\n    "@),
{
    reveal_with_fuel(named_upto, 10);
    reveal_strlit("    ; ");
    lemma_named_upto("    ; "@, 6);
    reveal_strlit(", x");
    lemma_named_upto(", x"@, 3);
    reveal_strlit(", ");
    lemma_named_upto(", "@, 2);
    reveal_strlit(" (rd=rs1");
    lemma_named_upto(" (rd=rs1"@, 8);
    reveal_strlit("imm)");
    lemma_named_upto("imm)"@, 4);
    reveal_strlit("rs2)");
    lemma_named_upto("rs2)"@, 4);
    reveal_strlit("\n    ");
    lemma_named_upto("\n    "@, 5);
}

/// In the literal pieces of a fragment (symbol), every `r` starts a name that a fragment may hold.
proof fn lemma_named_symbol_literals()
    ensures
        named("+"@),
        named("-"@),
        named("^"@),
        named("|"@),
        named("&"@),
{
    reveal_with_fuel(named_upto, 3);
    reveal_strlit("+");
    lemma_named_upto("+"@, 1);
    reveal_strlit("-");
    lemma_named_upto("-"@, 1);
    reveal_strlit("^");
    lemma_named_upto("^"@, 1);
    reveal_strlit("|");
    lemma_named_upto("|"@, 1);
    reveal_strlit("&");
    lemma_named_upto("&"@, 1);
}

/// In the literal pieces of a fragment (insn), every `r` starts a name that a fragment may hold.
proof fn lemma_named_insn_literals()
    ensures
        named("mov dword ptr [rbx + "@),
        named("], "@),
        named("mov r15d, dword ptr [rbx + "@),
        named("]"@),
        named("neg r15d"@),
        named("], r15d"@),
{
    reveal_with_fuel(named_upto, 29);
    reveal_strlit("mov dword ptr [rbx + ");
    lemma_named_upto("mov dword ptr [rbx + "@, 21);
    reveal_strlit("], ");
    lemma_named_upto("], "@, 3);
    reveal_strlit("mov r15d, dword ptr [rbx + ");
    lemma_named_upto("mov r15d, dword ptr [rbx + "@, 27);
    reveal_strlit("]");
    lemma_named_upto("]"@, 1);
    reveal_strlit("neg r15d");
    lemma_named_upto("neg r15d"@, 8);
    reveal_strlit("], r15d");
    lemma_named_upto("], r15d"@, 7);
}

/// In the literal pieces of a fragment (comment), every `r` starts a name that a fragment may hold.
proof fn lemma_named_comment_literals()
    ensures
        named("  ; x"@),
        named(" = "@),
        named(" ; Load x"@),
        named("                      ; Negate (0-rs2)"@),
        named(" ; Store to x"@),
{
    reveal_with_fuel(named_upto, 40);
    reveal_strlit("  ; x");
    lemma_named_upto("  ; x"@, 5);
    reveal_strlit(" = ");
    lemma_named_upto(" = "@, 3);
    reveal_strlit(" ; Load x");
    lemma_named_upto(" ; Load x"@, 9);
    reveal_strlit("                      ; Negate (0-rs2)");
    lemma_named_upto("                      ; Negate (0-rs2)"@, 38);
    reveal_strlit(" ; Store to x");
    lemma_named_upto(" ; Store to x"@, 13);
}

/// In the literal pieces of a fragment (imm comment), every `r` starts a name that a fragment may hold.
proof fn lemma_named_imm_comment_literals()
    ensures
        named("                  ; Add immediate"@),
        named("                  ; Subtract immediate"@),
        named("                  ; XOR immediate"@),
        named("                   ; OR immediate"@),
        named("                  ; AND immediate"@),
{
    reveal_with_fuel(named_upto, 40);
    reveal_strlit("                  ; Add immediate");
    lemma_named_upto("                  ; Add immediate"@, 33);
    reveal_strlit("                  ; Subtract immediate");
    lemma_named_upto("                  ; Subtract immediate"@, 38);
    reveal_strlit("                  ; XOR immediate");
    lemma_named_upto("                  ; XOR immediate"@, 33);
    reveal_strlit("                   ; OR immediate");
    lemma_named_upto("                   ; OR immediate"@, 33);
    reveal_strlit("                  ; AND immediate");
    lemma_named_upto("                  ; AND immediate"@, 33);
}

/// In the literal pieces of a fragment (reg comment), every `r` starts a name that a fragment may hold.
proof fn lemma_named_reg_comment_literals()
    ensures
        named(" ; Add x"@),
        named(" ; Subtract x"@),
        named(" ; XOR x"@),
        named("  ; OR x"@),
        named(" ; AND x"@),
{
    reveal_with_fuel(named_upto, 15);
    reveal_strlit(" ; Add x");
    lemma_named_upto(" ; Add x"@, 8);
    reveal_strlit(" ; Subtract x");
    lemma_named_upto(" ; Subtract x"@, 13);
    reveal_strlit(" ; XOR x");
    lemma_named_upto(" ; XOR x"@, 8);
    reveal_strlit("  ; OR x");
    lemma_named_upto("  ; OR x"@, 8);
    reveal_strlit(" ; AND x");
    lemma_named_upto(" ; AND x"@, 8);
}

/// In the literal pieces of a fragment (note), every `r` starts a name that a fragment may hold.
proof fn lemma_named_note_literals()
    ensures
        named("0"@),
        named(" = 0"@),
        named("X&0 = 0"@),
        named(" (0"@),
        named("rs2 = rs2)"@),
        named(" (rs1"@),
        named("0 = rs1)"@),
{
    reveal_with_fuel(named_upto, 12);
    reveal_strlit("0");
    lemma_named_upto("0"@, 1);
    reveal_strlit(" = 0");
    lemma_named_upto(" = 0"@, 4);
    reveal_strlit("X&0 = 0");
    lemma_named_upto("X&0 = 0"@, 7);
    reveal_strlit(" (0");
    lemma_named_upto(" (0"@, 3);
    reveal_strlit("rs2 = rs2)");
    lemma_named_upto("rs2 = rs2)"@, 10);
    reveal_strlit(" (rs1");
    lemma_named_upto(" (rs1"@, 5);
    reveal_strlit("0 = rs1)");
    lemma_named_upto("0 = rs1)"@, 8);
}

/// A mnemonic with what follows it (imm operation) holds allowed names only.
proof fn lemma_named_imm_operation(op: BaseAluOpcode)
    ensures
        named(mnemonic(op) + " r15d, "@),
{
    reveal_with_fuel(named_upto, 12);
    reveal_strlit(" r15d, ");
    reveal_strlit("add");
    reveal_strlit("sub");
    reveal_strlit("xor");
    reveal_strlit("or");
    reveal_strlit("and");
    match op {
        BaseAluOpcode::ADD => {
            lemma_named_upto("add"@ + " r15d, "@, 10);
        },
        BaseAluOpcode::SUB => {
            lemma_named_upto("sub"@ + " r15d, "@, 10);
        },
        BaseAluOpcode::XOR => {
            lemma_named_upto("xor"@ + " r15d, "@, 10);
        },
        BaseAluOpcode::OR => {
            lemma_named_upto("or"@ + " r15d, "@, 9);
        },
        BaseAluOpcode::AND => {
            lemma_named_upto("and"@ + " r15d, "@, 10);
        },
    }
}

/// A mnemonic with what follows it (reg operation) holds allowed names only.
proof fn lemma_named_reg_operation(op: BaseAluOpcode)
    ensures
        named(mnemonic(op) + " r15d, dword ptr [rbx + "@),
{
    reveal_with_fuel(named_upto, 29);
    reveal_strlit(" r15d, dword ptr [rbx + ");
    reveal_strlit("add");
    reveal_strlit("sub");
    reveal_strlit("xor");
    reveal_strlit("or");
    reveal_strlit("and");
    match op {
        BaseAluOpcode::ADD => {
            lemma_named_upto("add"@ + " r15d, dword ptr [rbx + "@, 27);
        },
        BaseAluOpcode::SUB => {
            lemma_named_upto("sub"@ + " r15d, dword ptr [rbx + "@, 27);
        },
        BaseAluOpcode::XOR => {
            lemma_named_upto("xor"@ + " r15d, dword ptr [rbx + "@, 27);
        },
        BaseAluOpcode::OR => {
            lemma_named_upto("or"@ + " r15d, dword ptr [rbx + "@, 26);
        },
        BaseAluOpcode::AND => {
            lemma_named_upto("and"@ + " r15d, dword ptr [rbx + "@, 27);
        },
    }
}

/// A mnemonic with what follows it (imm heading) holds allowed names only.
proof fn lemma_named_imm_heading(op: BaseAluOpcode)
    ensures
        named(mnemonic(op) + "i x"@),
{
    reveal_with_fuel(named_upto, 8);
    reveal_strlit("i x");
    reveal_strlit("add");
    reveal_strlit("sub");
    reveal_strlit("xor");
    reveal_strlit("or");
    reveal_strlit("and");
    match op {
        BaseAluOpcode::ADD => {
            lemma_named_upto("add"@ + "i x"@, 6);
        },
        BaseAluOpcode::SUB => {
            lemma_named_upto("sub"@ + "i x"@, 6);
        },
        BaseAluOpcode::XOR => {
            lemma_named_upto("xor"@ + "i x"@, 6);
        },
        BaseAluOpcode::OR => {
            lemma_named_upto("or"@ + "i x"@, 5);
        },
        BaseAluOpcode::AND => {
            lemma_named_upto("and"@ + "i x"@, 6);
        },
    }
}

/// A mnemonic with what follows it (reg heading) holds allowed names only.
proof fn lemma_named_reg_heading(op: BaseAluOpcode)
    ensures
        named(mnemonic(op) + " x"@),
{
    reveal_with_fuel(named_upto, 7);
    reveal_strlit(" x");
    reveal_strlit("add");
    reveal_strlit("sub");
    reveal_strlit("xor");
    reveal_strlit("or");
    reveal_strlit("and");
    match op {
        BaseAluOpcode::ADD => {
            lemma_named_upto("add"@ + " x"@, 5);
        },
        BaseAluOpcode::SUB => {
            lemma_named_upto("sub"@ + " x"@, 5);
        },
        BaseAluOpcode::XOR => {
            lemma_named_upto("xor"@ + " x"@, 5);
        },
        BaseAluOpcode::OR => {
            lemma_named_upto("or"@ + " x"@, 4);
        },
        BaseAluOpcode::AND => {
            lemma_named_upto("and"@ + " x"@, 5);
        },
    }
}

/// The text of a host instruction holds allowed names only.
pub proof fn lemma_named_insn(insn: HostInsn)
    ensures
        named(insn_text(insn)),
{
    lemma_named_insn_literals();
    match insn {
        HostInsn::StoreImm { rd, imm } => {
            let offset = dec(crate::host::slot_offset(rd));
            lemma_named_dec(crate::host::slot_offset(rd));
            lemma_named_signed_dec(imm as int);
            lemma_named_concat("mov dword ptr [rbx + "@, offset);
            lemma_named_concat("mov dword ptr [rbx + "@ + offset, "], "@);
            lemma_named_concat("mov dword ptr [rbx + "@ + offset + "], "@, signed_dec(imm as int));
        },
        HostInsn::StoreWord { rd, value } => {
            let offset = dec(crate::host::slot_offset(rd));
            lemma_named_dec(crate::host::slot_offset(rd));
            lemma_named_dec(value as nat);
            lemma_named_concat("mov dword ptr [rbx + "@, offset);
            lemma_named_concat("mov dword ptr [rbx + "@ + offset, "], "@);
            lemma_named_concat("mov dword ptr [rbx + "@ + offset + "], "@, dec(value as nat));
        },
        HostInsn::Load { rs } => {
            let offset = dec(crate::host::slot_offset(rs));
            lemma_named_dec(crate::host::slot_offset(rs));
            lemma_named_concat("mov r15d, dword ptr [rbx + "@, offset);
            lemma_named_concat("mov r15d, dword ptr [rbx + "@ + offset, "]"@);
        },
        HostInsn::AluImm { op, imm } => {
            lemma_named_imm_operation(op);
            lemma_named_signed_dec(imm as int);
            lemma_named_concat(mnemonic(op) + " r15d, "@, signed_dec(imm as int));
        },
        HostInsn::AluReg { op, rs } => {
            let offset = dec(crate::host::slot_offset(rs));
            lemma_named_reg_operation(op);
            lemma_named_dec(crate::host::slot_offset(rs));
            lemma_named_concat(mnemonic(op) + " r15d, dword ptr [rbx + "@, offset);
            lemma_named_concat(mnemonic(op) + " r15d, dword ptr [rbx + "@ + offset, "]"@);
        },
        HostInsn::Neg => {},
        HostInsn::Store { rd } => {
            let offset = dec(crate::host::slot_offset(rd));
            lemma_named_dec(crate::host::slot_offset(rd));
            lemma_named_concat("mov dword ptr [rbx + "@, offset);
            lemma_named_concat("mov dword ptr [rbx + "@ + offset, "], r15d"@);
        },
    }
}

/// The text of a note holds allowed names only.
pub proof fn lemma_named_note(note: Note)
    ensures
        named(note_text(note)),
{
    lemma_named_note_literals();
    lemma_named_symbol_literals();
    lemma_named_symbol(BaseAluOpcode::ADD);
    match note {
        Note::Plain => {
            assert forall|k: int| 0 <= k < 0 implies #[trigger] named_at(Seq::<char>::empty(), k) by {
            }
        },
        Note::Value(imm) => {
            lemma_named_signed_dec(imm as int);
        },
        Note::ZeroWithImm(op, imm) => {
            lemma_named_symbol(op);
            lemma_named_signed_dec(imm as int);
            lemma_named_concat("0"@, symbol(op));
            lemma_named_concat("0"@ + symbol(op), signed_dec(imm as int));
            let tail = if op == BaseAluOpcode::AND {
                " = 0"@
            } else {
                Seq::<char>::empty()
            };
            assert(named(Seq::<char>::empty())) by {
                assert forall|k: int| 0 <= k < 0 implies #[trigger] named_at(
                    Seq::<char>::empty(),
                    k,
                ) by {
                }
            }
            lemma_named_concat("0"@ + symbol(op) + signed_dec(imm as int), tail);
        },
        Note::ZeroWithZero(op) => {
            lemma_named_symbol(op);
            lemma_named_concat("0"@, symbol(op));
            lemma_named_concat("0"@ + symbol(op), "0"@);
        },
        Note::AndWithZero => {},
        Note::ZeroFirst(op) => {
            lemma_named_symbol(op);
            lemma_named_concat(" (0"@, symbol(op));
            lemma_named_concat(" (0"@ + symbol(op), "rs2 = rs2)"@);
        },
        Note::ZeroSecond(op) => {
            lemma_named_symbol(op);
            lemma_named_concat(" (rs1"@, symbol(op));
            lemma_named_concat(" (rs1"@ + symbol(op), "0 = rs1)"@);
        },
    }
}

/// The sign of an operation holds no `r`.
pub proof fn lemma_named_symbol(op: BaseAluOpcode)
    ensures
        named(symbol(op)),
{
    lemma_named_symbol_literals();
}

/// The comment behind a host instruction holds allowed names only.
pub proof fn lemma_named_comment(insn: HostInsn, note: Note)
    ensures
        named(comment_text(insn, note)),
{
    lemma_named_comment_literals();
    lemma_named_imm_comment_literals();
    lemma_named_reg_comment_literals();
    lemma_named_note(note);
    match insn {
        HostInsn::StoreImm { rd, imm } => {
            lemma_named_dec(rd as nat);
            lemma_named_concat("  ; x"@, dec(rd as nat));
            lemma_named_concat("  ; x"@ + dec(rd as nat), " = "@);
            lemma_named_concat("  ; x"@ + dec(rd as nat) + " = "@, note_text(note));
        },
        HostInsn::StoreWord { rd, value } => {
            lemma_named_dec(rd as nat);
            lemma_named_concat("  ; x"@, dec(rd as nat));
            lemma_named_concat("  ; x"@ + dec(rd as nat), " = "@);
            lemma_named_concat("  ; x"@ + dec(rd as nat) + " = "@, note_text(note));
        },
        HostInsn::Load { rs } => {
            lemma_named_dec(rs as nat);
            lemma_named_concat(" ; Load x"@, dec(rs as nat));
        },
        HostInsn::AluImm { op, imm } => {},
        HostInsn::AluReg { op, rs } => {
            lemma_named_dec(rs as nat);
            lemma_named_concat(reg_comment(op), dec(rs as nat));
        },
        HostInsn::Neg => {},
        HostInsn::Store { rd } => {
            lemma_named_dec(rd as nat);
            lemma_named_concat(" ; Store to x"@, dec(rd as nat));
            lemma_named_concat(" ; Store to x"@ + dec(rd as nat), note_text(note));
        },
    }
}

/// The first `n` lines of a fragment hold allowed names only.
pub proof fn lemma_named_lines(lines: Seq<Line>, n: int)
    ensures
        named(lines_text_upto(lines, n)),
    decreases n,
{
    if n > 0 {
        lemma_named_lines(lines, n - 1);
        let line = lines[n - 1];
        lemma_named_header_literals();
        lemma_named_insn(line.insn);
        lemma_named_comment(line.insn, line.note);
        lemma_named_concat("\n    "@, insn_text(line.insn));
        lemma_named_concat("\n    "@ + insn_text(line.insn), comment_text(line.insn, line.note));
        lemma_named_concat(lines_text_upto(lines, n - 1), line_text(line));
    } else {
        assert forall|k: int| 0 <= k < 0 implies #[trigger] named_at(Seq::<char>::empty(), k) by {
        }
    }
}

/// The comment line that heads a fragment holds allowed names only.
pub proof fn lemma_named_header(op: BaseAluOpcode, rd: u8, rs1: u8, operand: Operand)
    ensures
        named(header_text(op, rd, rs1, operand)),
{
    lemma_named_header_literals();
    lemma_named_symbol(op);
    lemma_named_dec(rd as nat);
    lemma_named_dec(rs1 as nat);
    match operand {
        Operand::Imm(imm) => {
            lemma_named_imm_heading(op);
            lemma_named_signed_dec(imm as int);
            let start = "    ; "@ + mnemonic(op) + "i x"@;
            lemma_named_concat("    ; "@, mnemonic(op) + "i x"@);
            assert(start =~= "    ; "@ + (mnemonic(op) + "i x"@));
            lemma_named_concat(start, dec(rd as nat));
            lemma_named_concat(start + dec(rd as nat), ", x"@);
            lemma_named_concat(start + dec(rd as nat) + ", x"@, dec(rs1 as nat));
            let names = start + dec(rd as nat) + ", x"@ + dec(rs1 as nat);
            lemma_named_concat(names, ", "@);
            lemma_named_concat(names + ", "@, signed_dec(imm as int));
            lemma_named_concat(names + ", "@ + signed_dec(imm as int), " (rd=rs1"@);
            lemma_named_concat(names + ", "@ + signed_dec(imm as int) + " (rd=rs1"@, symbol(op));
            lemma_named_concat(
                names + ", "@ + signed_dec(imm as int) + " (rd=rs1"@ + symbol(op),
                "imm)"@,
            );
        },
        Operand::Reg(rs2) => {
            lemma_named_reg_heading(op);
            lemma_named_dec(rs2 as nat);
            let start = "    ; "@ + mnemonic(op) + " x"@;
            lemma_named_concat("    ; "@, mnemonic(op) + " x"@);
            assert(start =~= "    ; "@ + (mnemonic(op) + " x"@));
            lemma_named_concat(start, dec(rd as nat));
            lemma_named_concat(start + dec(rd as nat), ", x"@);
            lemma_named_concat(start + dec(rd as nat) + ", x"@, dec(rs1 as nat));
            let names = start + dec(rd as nat) + ", x"@ + dec(rs1 as nat);
            lemma_named_concat(names, ", x"@);
            lemma_named_concat(names + ", x"@, dec(rs2 as nat));
            lemma_named_concat(names + ", x"@ + dec(rs2 as nat), " (rd=rs1"@);
            lemma_named_concat(names + ", x"@ + dec(rs2 as nat) + " (rd=rs1"@, symbol(op));
            lemma_named_concat(
                names + ", x"@ + dec(rs2 as nat) + " (rd=rs1"@ + symbol(op),
                "rs2)"@,
            );
        },
    }
}

/// Whether the three characters stand in a row somewhere in the text.
pub open spec fn holds_name(text: Seq<char>, first: char, second: char, third: char) -> bool {
    exists|k: int|
        0 <= k && k + 2 < text.len() && #[trigger] text[k] == first && text[k + 1] == second
            && text[k + 2] == third
}

/// A fragment leaves the cells of program counter and instruction count
/// alone. Its text names neither `r14`, the register that holds the pointer to
/// the pc cell, nor `rsi` or `rdx`, the registers in which the pointers to the
/// two cells arrive: every `r` in it starts `rbx`, `r15d` or a word of a
/// comment. Together with `lemma_fragment_is_straight_line` this is the text's
/// side of what `lemma_fragment_keeps_other_slots` says of the host
/// instructions: a fragment writes its slot of the buffer and the scratch
/// register and nothing else, and hands control on at its end.
pub proof fn lemma_fragment_names_no_cell(op: BaseAluOpcode, rd: u8, rs1: u8, operand: Operand)
    ensures
        named(fragment_text(op, rd, rs1, operand)),
        !holds_name(fragment_text(op, rd, rs1, operand), 'r', '1', '4'),
        !holds_name(fragment_text(op, rd, rs1, operand), 'r', 's', 'i'),
        !holds_name(fragment_text(op, rd, rs1, operand), 'r', 'd', 'x'),
{
    let lines = spec_lower(op, rd, rs1, operand);
    let text = fragment_text(op, rd, rs1, operand);
    lemma_named_header(op, rd, rs1, operand);
    lemma_named_lines(lines, lines.len() as int);
    lemma_named_concat(header_text(op, rd, rs1, operand), lines_text(lines));
    assert forall|k: int| 0 <= k && k + 2 < text.len() && #[trigger] text[k] == 'r'
        implies name_goes_on(text[k + 1], text[k + 2]) by {
        assert(named_at(text, k));
    }
}

} // verus!
