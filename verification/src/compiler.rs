//! The ahead-of-time compiler: from a guest program to the text of one assembly unit.
//!
//! The unit has three parts. The prologue sets up the register buffer and the
//! base pointers, fills the buffer from guest memory and enters the program at
//! its entry program counter. The body holds one labelled block per defined
//! instruction, in the order of the program counters: the fragment of the first
//! emitter that claims the instruction, followed by the housekeeping that counts
//! the instruction and stores the next program counter, or, where no emitter
//! claims it, a jump to the fallback handler. The footer holds the fallback
//! handler and the exit.
//!
//! Two policies are fixed here. The generated code runs from the entry program
//! counter until it meets an instruction without emitter or leaves the program;
//! it then hands over to the external handler once, through the fallback
//! handler, and returns: whoever calls the entry point drives any further
//! execution. And the generated code counts only the instructions that its own
//! blocks carry out; the handler counts what it executes.
//!
//! The generated code keeps the pointer to the instruction count and the
//! argument in its stack frame, below the callee-saved registers, since the
//! registers they arrive in do not survive a call.
//!
//! The entry point and the handler share one calling convention: a pointer to
//! the pre-computation buffer, a pointer to the 64-bit count of retired
//! instructions, a pointer to the 32-bit program counter, a 64-bit argument and
//! a pointer to the execution state, in this order. The two register shims take
//! the state pointer and a pointer to the register buffer.

use vstd::prelude::*;
use vstd::string::*;
use crate::base_alu::BaseAluExecutor;
use crate::error::AotError;
use crate::executor::{emitted_view, AotExecutor};
use crate::instruction::{Instruction, Program, VmExe, BASE_ALU_CLASS_OFFSET, DEFAULT_PC_STEP};
use crate::text::{dec, hex, push_dec, push_hex};

verus! {

/// The first comment line, up to the number of instructions.
pub open spec fn banner_text() -> Seq<char> {
    "; OpenVM AOT Generated Assembly\n; Program: "@
}

fn banner_str() -> (text: &'static str)
    ensures
        text@ == banner_text(),
{
    "; OpenVM AOT Generated Assembly\n; Program: "
}

/// From the number of instructions to the entry program counter.
pub open spec fn banner_entry_text() -> Seq<char> {
    " instructions\n; Entry PC: 0x"@
}

fn banner_entry_str() -> (text: &'static str)
    ensures
        text@ == banner_entry_text(),
{
    " instructions\n; Entry PC: 0x"
}

/// The text section, the symbols and the entry label with the calling convention.
pub open spec fn symbols_text() -> Seq<char> {
    "\n\n%define ptr                   ; fragments write `dword ptr`\n\nsection .text\nglobal openvm_aot_entry\nextern openvm_aot_handler\nextern openvm_sync_registers_to_memory\nextern openvm_sync_registers_from_memory\n\nopenvm_aot_entry:\nopenvm_aot_start:\n    ; Function signature:\n    ; rdi = pre_compute ptr\n    ; rsi = instret ptr\n    ; rdx = pc ptr\n    ; rcx = arg\n    ; r8  = state ptr (AotExecState)\n\n"@
}

fn symbols_str() -> (text: &'static str)
    ensures
        text@ == symbols_text(),
{
    "\n\n%define ptr                   ; fragments write `dword ptr`\n\nsection .text\nglobal openvm_aot_entry\nextern openvm_aot_handler\nextern openvm_sync_registers_to_memory\nextern openvm_sync_registers_from_memory\n\nopenvm_aot_entry:\nopenvm_aot_start:\n    ; Function signature:\n    ; rdi = pre_compute ptr\n    ; rsi = instret ptr\n    ; rdx = pc ptr\n    ; rcx = arg\n    ; r8  = state ptr (AotExecState)\n\n"
}

/// Saving the callee-saved registers and the caller parameters, and allocating the register buffer.
pub open spec fn frame_text() -> Seq<char> {
    "    ; Save callee-saved registers\n    push rbp\n    mov rbp, rsp\n    push rbx\n    push r12\n    push r13\n    push r14\n    push r15\n\n    ; Save caller parameters\n    push rsi                  ; instret ptr at [rbp - 48]\n    push rcx                  ; arg at [rbp - 56]\n    push rdi                  ; pre_compute ptr at [rbp - 64], keeps the stack aligned\n\n    ; Allocate local register array\n    sub rsp, 128              ; 32 registers * 4 bytes\n\n"@
}

fn frame_str() -> (text: &'static str)
    ensures
        text@ == frame_text(),
{
    "    ; Save callee-saved registers\n    push rbp\n    mov rbp, rsp\n    push rbx\n    push r12\n    push r13\n    push r14\n    push r15\n\n    ; Save caller parameters\n    push rsi                  ; instret ptr at [rbp - 48]\n    push rcx                  ; arg at [rbp - 56]\n    push rdi                  ; pre_compute ptr at [rbp - 64], keeps the stack aligned\n\n    ; Allocate local register array\n    sub rsp, 128              ; 32 registers * 4 bytes\n\n"
}

/// Establishing the base pointers.
pub open spec fn bases_text() -> Seq<char> {
    "    ; Set up register allocation\n    mov rbx, rsp              ; rbx = local register array\n    mov r12, rdi              ; r12 = pre_compute\n    mov r13, r8               ; r13 = state ptr\n    mov r14, rdx              ; r14 = pc ptr\n\n"@
}

fn bases_str() -> (text: &'static str)
    ensures
        text@ == bases_text(),
{
    "    ; Set up register allocation\n    mov rbx, rsp              ; rbx = local register array\n    mov r12, rdi              ; r12 = pre_compute\n    mov r13, r8               ; r13 = state ptr\n    mov r14, rdx              ; r14 = pc ptr\n\n"
}

/// Filling the register buffer from guest memory.
pub open spec fn load_registers_text() -> Seq<char> {
    "    ; Load registers from guest memory\n    mov rdi, r13              ; state ptr\n    mov rsi, rbx              ; register buffer\n    call openvm_sync_registers_from_memory\n\n"@
}

fn load_registers_str() -> (text: &'static str)
    ensures
        text@ == load_registers_text(),
{
    "    ; Load registers from guest memory\n    mov rdi, r13              ; state ptr\n    mov rsi, rbx              ; register buffer\n    call openvm_sync_registers_from_memory\n\n"
}

/// Comparing the program counter handed in with the entry program counter.
pub open spec fn entry_check_text() -> Seq<char> {
    "    ; Load initial PC and jump\n    mov eax, [r14]            ; Load PC\n    cmp eax, "@
}

fn entry_check_str() -> (text: &'static str)
    ensures
        text@ == entry_check_text(),
{
    "    ; Load initial PC and jump\n    mov eax, [r14]            ; Load PC\n    cmp eax, "
}

/// Leaving through the handler when the two differ.
pub open spec fn entry_mismatch_text() -> Seq<char> {
    "\n    jne .fallback_handler\n"@
}

fn entry_mismatch_str() -> (text: &'static str)
    ensures
        text@ == entry_mismatch_text(),
{
    "\n    jne .fallback_handler\n"
}

/// A jump to the block of a program counter.
pub open spec fn jump_label_text() -> Seq<char> {
    "    jmp .pc_"@
}

fn jump_label_str() -> (text: &'static str)
    ensures
        text@ == jump_label_text(),
{
    "    jmp .pc_"
}

/// A jump to the fallback handler.
pub open spec fn jump_fallback_text() -> Seq<char> {
    "    jmp .fallback_handler\n"@
}

fn jump_fallback_str() -> (text: &'static str)
    ensures
        text@ == jump_fallback_text(),
{
    "    jmp .fallback_handler\n"
}

/// The end of a line.
pub open spec fn newline_text() -> Seq<char> {
    "\n"@
}

fn newline_str() -> (text: &'static str)
    ensures
        text@ == newline_text(),
{
    "\n"
}

/// The start of a block label.
pub open spec fn label_open_text() -> Seq<char> {
    ".pc_"@
}

fn label_open_str() -> (text: &'static str)
    ensures
        text@ == label_open_text(),
{
    ".pc_"
}

/// The end of a block label.
pub open spec fn label_close_text() -> Seq<char> {
    ":\n"@
}

fn label_close_str() -> (text: &'static str)
    ensures
        text@ == label_close_text(),
{
    ":\n"
}

/// Counting the instruction as retired and starting the update of the program counter.
pub open spec fn retire_text() -> Seq<char> {
    "\n    ; Update instret\n    mov rax, [rbp - 48]      ; Load instret ptr\n    inc qword [rax]          ; Increment\n    ; Update PC\n    mov dword [r14], "@
}

fn retire_str() -> (text: &'static str)
    ensures
        text@ == retire_text(),
{
    "\n    ; Update instret\n    mov rax, [rbp - 48]      ; Load instret ptr\n    inc qword [rax]          ; Increment\n    ; Update PC\n    mov dword [r14], "
}

/// From the new program counter to the bounds check.
pub open spec fn bounds_text() -> Seq<char> {
    "  ; Update PC\n    ; Check if next PC is within program bounds\n    cmp dword [r14], "@
}

fn bounds_str() -> (text: &'static str)
    ensures
        text@ == bounds_text(),
{
    "  ; Update PC\n    ; Check if next PC is within program bounds\n    cmp dword [r14], "
}

/// Leaving through the handler at the end of the program.
pub open spec fn bounds_leave_text() -> Seq<char> {
    "  ; Compare with program end\n    jae .fallback_handler    ; Hand over if PC >= program end\n"@
}

fn bounds_leave_str() -> (text: &'static str)
    ensures
        text@ == bounds_leave_text(),
{
    "  ; Compare with program end\n    jae .fallback_handler    ; Hand over if PC >= program end\n"
}

/// The start of a block that no emitter claims.
pub open spec fn unclaimed_text() -> Seq<char> {
    "    ; No AOT implementation - call external handler\n    mov dword [r14], "@
}

fn unclaimed_str() -> (text: &'static str)
    ensures
        text@ == unclaimed_text(),
{
    "    ; No AOT implementation - call external handler\n    mov dword [r14], "
}

/// Handing an unclaimed instruction to the handler.
pub open spec fn unclaimed_leave_text() -> Seq<char> {
    "  ; Update PC\n    jmp .fallback_handler\n\n"@
}

fn unclaimed_leave_str() -> (text: &'static str)
    ensures
        text@ == unclaimed_leave_text(),
{
    "  ; Update PC\n    jmp .fallback_handler\n\n"
}

/// The fallback handler and the exit.
pub open spec fn footer_text() -> Seq<char> {
    ".fallback_handler:\n    ; Sync registers to guest memory before external call\n    mov rdi, r13              ; state ptr\n    mov rsi, rbx              ; register buffer\n    call openvm_sync_registers_to_memory\n\n    ; Call external handler for unsupported instruction\n    mov rdi, r12              ; pre_compute ptr\n    mov rsi, [rbp - 48]       ; instret ptr\n    mov rdx, r14              ; pc ptr\n    mov rcx, [rbp - 56]       ; arg\n    mov r8, r13               ; state\n    call openvm_aot_handler\n\n    ; Sync registers from guest memory after external call\n    mov rdi, r13              ; state ptr\n    mov rsi, rbx              ; register buffer\n    call openvm_sync_registers_from_memory\n\n    ; The handler has taken over; its program counter is in the pc cell\n    jmp .exit\n\n.exit:\n    ; Clean up stack\n    lea rsp, [rbp - 40]       ; Remove register array and caller parameters\n    ; Restore callee-saved registers\n    pop r15\n    pop r14\n    pop r13\n    pop r12\n    pop rbx\n    pop rbp\n    ret\n"@
}

fn footer_str() -> (text: &'static str)
    ensures
        text@ == footer_text(),
{
    ".fallback_handler:\n    ; Sync registers to guest memory before external call\n    mov rdi, r13              ; state ptr\n    mov rsi, rbx              ; register buffer\n    call openvm_sync_registers_to_memory\n\n    ; Call external handler for unsupported instruction\n    mov rdi, r12              ; pre_compute ptr\n    mov rsi, [rbp - 48]       ; instret ptr\n    mov rdx, r14              ; pc ptr\n    mov rcx, [rbp - 56]       ; arg\n    mov r8, r13               ; state\n    call openvm_aot_handler\n\n    ; Sync registers from guest memory after external call\n    mov rdi, r13              ; state ptr\n    mov rsi, rbx              ; register buffer\n    call openvm_sync_registers_from_memory\n\n    ; The handler has taken over; its program counter is in the pc cell\n    jmp .exit\n\n.exit:\n    ; Clean up stack\n    lea rsp, [rbp - 40]       ; Remove register array and caller parameters\n    ; Restore callee-saved registers\n    pop r15\n    pop r14\n    pop r13\n    pop r12\n    pop rbx\n    pop rbp\n    ret\n"
}

/// A program counter as eight hexadecimal digits.
pub open spec fn pc_hex(pc: int) -> Seq<char> {
    hex(pc as nat, 8)
}

/// A program counter as a number of the assembly text: eight hexadecimal
/// digits and the letter `h`.
pub open spec fn pc_literal(pc: int) -> Seq<char> {
    pc_hex(pc) + "h"@
}

/// The label of the block at a program counter.
pub open spec fn label_text(pc: int) -> Seq<char> {
    label_open_text() + pc_hex(pc) + label_close_text()
}

/// A jump to the block at `target`, or to the fallback handler where there is none.
pub open spec fn jump_text(target: Option<int>) -> Seq<char> {
    match target {
        Some(pc) => jump_label_text() + pc_hex(pc) + newline_text(),
        None => jump_fallback_text(),
    }
}

/// The prologue.
pub open spec fn header_text(exe: VmExe) -> Seq<char> {
    banner_text() + dec(exe.program.spec_defined_upto(exe.program.instructions@.len() as int))
        + banner_entry_text() + pc_hex(exe.pc_start as int) + symbols_text() + frame_text()
        + bases_text() + load_registers_text() + entry_check_text() + pc_literal(
        exe.pc_start as int,
    )
        + entry_mismatch_text() + jump_text(
        if exe.program.spec_has_instruction_at(exe.pc_start) {
            Some(exe.pc_start as int)
        } else {
            None
        },
    ) + newline_text()
}

/// Whether slot `index` of the program holds an instruction.
pub open spec fn slot_defined(program: Program, index: int) -> bool {
    0 <= index < program.instructions@.len() && program.instructions@[index] is Some
}

/// The block of the instruction in slot `index`, given the fragment of the
/// emitter that claims it, if one does.
///
/// A claimed block counts the instruction, stores the program counter of the
/// next slot in the pc cell and goes on with the block of that slot; where the
/// program ends there, or the next slot holds no instruction, it leaves through
/// the fallback handler. An unclaimed block stores its own program counter and
/// leaves through the fallback handler.
pub open spec fn block_text(program: Program, index: int, claim: Option<Seq<char>>) -> Seq<char> {
    let pc = program.spec_pc_of(index);
    match claim {
        Some(fragment) => label_text(pc) + fragment + retire_text() + pc_literal(
            pc + DEFAULT_PC_STEP,
        ) + bounds_text() + pc_literal(program.spec_end_pc()) + bounds_leave_text() + jump_text(
            if slot_defined(program, index + 1) {
                Some(pc + DEFAULT_PC_STEP)
            } else {
                None
            },
        ) + newline_text(),
        None => label_text(pc) + unclaimed_text() + pc_literal(pc) + unclaimed_leave_text(),
    }
}

/// The answer of the first emitter from `from` on that does not pass: emitters
/// are asked in the order of the list, the first that claims the instruction
/// wins, and an error of an emitter asked before any claim is the answer.
pub open spec fn spec_search<T: AotExecutor>(
    emitters: Seq<T>,
    pc: u32,
    inst: Instruction,
    from: int,
) -> Result<Option<Seq<char>>, AotError>
    decreases emitters.len() - from,
{
    if from < 0 || from >= emitters.len() {
        Ok(None)
    } else {
        match emitters[from].spec_assembly(pc, inst) {
            Ok(None) => spec_search(emitters, pc, inst, from + 1),
            answer => answer,
        }
    }
}

/// The blocks of the first `n` slots, or the error of the first instruction that an emitter rejects.
pub open spec fn body_upto<T: AotExecutor>(program: Program, emitters: Seq<T>, n: int) -> Result<
    Seq<char>,
    AotError,
>
    decreases n,
{
    if n <= 0 {
        Ok(Seq::empty())
    } else {
        match body_upto(program, emitters, n - 1) {
            Err(error) => Err(error),
            Ok(blocks) => match program.instructions@[n - 1] {
                None => Ok(blocks),
                Some(inst) => match spec_search(
                    emitters,
                    program.spec_pc_of(n - 1) as u32,
                    inst,
                    0,
                ) {
                    Err(error) => Err(error),
                    Ok(claim) => Ok(blocks + block_text(program, n - 1, claim)),
                },
            },
        }
    }
}

/// The body: the blocks of all slots.
pub open spec fn body_text<T: AotExecutor>(program: Program, emitters: Seq<T>) -> Result<
    Seq<char>,
    AotError,
> {
    body_upto(program, emitters, program.instructions@.len() as int)
}

/// The assembly unit of an executable: prologue, body and footer.
pub open spec fn spec_compile<T: AotExecutor>(exe: VmExe, emitters: Seq<T>) -> Result<
    Seq<char>,
    AotError,
> {
    match body_text(exe.program, emitters) {
        Err(error) => Err(error),
        Ok(body) => Ok(header_text(exe) + body + footer_text()),
    }
}

/// The result of a compilation, with the text taken as a sequence of characters.
pub open spec fn compiled_view(compiled: Result<String, AotError>) -> Result<Seq<char>, AotError> {
    match compiled {
        Ok(text) => Ok(text@),
        Err(error) => Err(error),
    }
}

/// Appends a program counter as eight hexadecimal digits.
fn push_pc(text: &mut String, pc: u32)
    ensures
        final(text)@ == old(text)@ + pc_hex(pc as int),
{
    push_hex(text, pc as u64, 8);
}

/// Appends a program counter as a number of the assembly text.
fn push_pc_literal(text: &mut String, pc: u32)
    ensures
        final(text)@ == old(text)@ + pc_literal(pc as int),
{
    push_pc(text, pc);
    text.append("h");
    assert(final(text)@ =~= old(text)@ + pc_literal(pc as int));
}

/// Appends a jump to the block at `target`, or to the fallback handler.
fn push_jump(text: &mut String, target: Option<u32>)
    ensures
        final(text)@ == old(text)@ + jump_text(
            match target {
                Some(pc) => Some(pc as int),
                None => None,
            },
        ),
{
    match target {
        Some(pc) => {
            text.append(jump_label_str());
            push_pc(text, pc);
            text.append(newline_str());
        },
        None => {
            text.append(jump_fallback_str());
        },
    }
    assert(final(text)@ =~= old(text)@ + jump_text(
        match target {
            Some(pc) => Some(pc as int),
            None => None,
        },
    ));
}

/// Asks the emitters in order for the fragment of an instruction.
pub fn find_fragment<T: AotExecutor>(emitters: &[T], pc: u32, inst: &Instruction) -> (answer: Result<
    Option<String>,
    AotError,
>)
    ensures
        emitted_view(answer) == spec_search(emitters@, pc, *inst, 0),
{
    let mut j: usize = 0;
    while j < emitters.len()
        invariant
            j <= emitters@.len(),
            spec_search(emitters@, pc, *inst, 0) == spec_search(emitters@, pc, *inst, j as int),
        decreases emitters@.len() - j,
    {
        match emitters[j].generate_aot_assembly(pc, inst) {
            Ok(None) => {},
            Ok(Some(fragment)) => {
                return Ok(Some(fragment));
            },
            Err(error) => {
                return Err(error);
            },
        }
        j = j + 1;
    }
    Ok(None)
}

/// Appends the block of the instruction in slot `index`.
pub fn push_block(text: &mut String, program: &Program, index: usize, claim: Option<String>)
    requires
        program.wf(),
        index < program.instructions@.len(),
    ensures
        final(text)@ == old(text)@ + block_text(
            *program,
            index as int,
            match claim {
                Some(fragment) => Some(fragment@),
                None => None,
            },
        ),
{
    let pc = program.pc_of(index);
    text.append(label_open_str());
    push_pc(text, pc);
    text.append(label_close_str());
    match claim {
        Some(fragment) => {
            let next_pc = program.pc_of(index + 1);
            let next_defined = index + 1 < program.len() && program.instructions[index
                + 1].is_some();
            text.append(fragment.as_str());
            text.append(retire_str());
            push_pc_literal(text, next_pc);
            text.append(bounds_str());
            push_pc_literal(text, program.end_pc());
            text.append(bounds_leave_str());
            push_jump(
                text,
                if next_defined {
                    Some(next_pc)
                } else {
                    None
                },
            );
            text.append(newline_str());
            assert(final(text)@ =~= old(text)@ + block_text(
                *program,
                index as int,
                Some(fragment@),
            ));
        },
        None => {
            text.append(unclaimed_str());
            push_pc_literal(text, pc);
            text.append(unclaimed_leave_str());
            assert(final(text)@ =~= old(text)@ + block_text(*program, index as int, None));
        },
    }
}

/// The compiler: the text of the unit it is writing.
pub struct AotCompiler {
    pub assembly: String,
}

impl AotCompiler {
    pub fn new() -> (compiler: Self)
        ensures
            compiler.assembly@ == Seq::<char>::empty(),
    {
        AotCompiler { assembly: String::new() }
    }

    /// Compiles an executable with the emitters given, asked in the order of the
    /// list. The text is returned and stays in the compiler; after an error the
    /// compiler holds no text.
    pub fn compile<T: AotExecutor>(&mut self, exe: &VmExe, aot_executors: &[T]) -> (compiled: Result<
        String,
        AotError,
    >)
        requires
            exe.program.wf(),
        ensures
            compiled_view(compiled) == spec_compile(*exe, aot_executors@),
            final(self).assembly@ == match compiled {
                Ok(text) => text@,
                Err(error) => Seq::<char>::empty(),
            },
    {
        self.assembly = String::new();
        self.generate_header(exe);
        match self.generate_program_assembly(&exe.program, exe.pc_start, aot_executors) {
            Ok(()) => {},
            Err(error) => {
                self.assembly = String::new();
                return Err(error);
            },
        }
        self.generate_footer();
        assert(self.assembly@ =~= header_text(*exe) + body_text(
            exe.program,
            aot_executors@,
        )->Ok_0 + footer_text());
        Ok(self.assembly.clone())
    }

    /// Appends the prologue.
    pub fn generate_header(&mut self, exe: &VmExe)
        requires
            exe.program.wf(),
        ensures
            final(self).assembly@ == old(self).assembly@ + header_text(*exe),
    {
        let entry_defined = exe.program.has_instruction_at(exe.pc_start);
        self.assembly.append(banner_str());
        push_dec(&mut self.assembly, exe.program.num_defined_instructions() as u64);
        self.assembly.append(banner_entry_str());
        push_pc(&mut self.assembly, exe.pc_start);
        self.assembly.append(symbols_str());
        self.assembly.append(frame_str());
        self.assembly.append(bases_str());
        self.assembly.append(load_registers_str());
        self.assembly.append(entry_check_str());
        push_pc_literal(&mut self.assembly, exe.pc_start);
        self.assembly.append(entry_mismatch_str());
        push_jump(
            &mut self.assembly,
            if entry_defined {
                Some(exe.pc_start)
            } else {
                None
            },
        );
        self.assembly.append(newline_str());
        assert(final(self).assembly@ =~= old(self).assembly@ + header_text(*exe));
    }

    /// Appends the body: one block per defined instruction, in the order of the
    /// program counters. Stops at the first instruction that an emitter rejects.
    pub fn generate_program_assembly<T: AotExecutor>(
        &mut self,
        program: &Program,
        _start_pc: u32,
        aot_executors: &[T],
    ) -> (done: Result<(), AotError>)
        requires
            program.wf(),
        ensures
            match done {
                Ok(()) => body_text(*program, aot_executors@) is Ok && final(self).assembly@ == old(
                    self,
                ).assembly@ + body_text(*program, aot_executors@)->Ok_0,
                Err(error) => body_text(*program, aot_executors@) == Err::<Seq<char>, AotError>(
                    error,
                ),
            },
    {
        let n = program.len();
        let mut index: usize = 0;
        assert(self.assembly@ =~= old(self).assembly@ + Seq::<char>::empty());
        while index < n
            invariant
                program.wf(),
                n == program.instructions@.len(),
                index <= n,
                body_upto(*program, aot_executors@, index as int) is Ok,
                self.assembly@ == old(self).assembly@ + body_upto(
                    *program,
                    aot_executors@,
                    index as int,
                )->Ok_0,
            decreases n - index,
        {
            match program.instructions[index] {
                None => {},
                Some(inst) => {
                    let pc = program.pc_of(index);
                    match find_fragment(aot_executors, pc, &inst) {
                        Err(error) => {
                            proof {
                                lemma_body_error_stays(
                                    *program,
                                    aot_executors@,
                                    index as int + 1,
                                    n as int,
                                );
                            }
                            return Err(error);
                        },
                        Ok(claim) => {
                            push_block(&mut self.assembly, program, index, claim);
                        },
                    }
                },
            }
            index = index + 1;
            assert(self.assembly@ =~= old(self).assembly@ + body_upto(
                *program,
                aot_executors@,
                index as int,
            )->Ok_0);
        }
        Ok(())
    }

    /// Appends the footer: the fallback handler and the exit.
    pub fn generate_footer(&mut self)
        ensures
            final(self).assembly@ == old(self).assembly@ + footer_text(),
    {
        self.assembly.append(footer_str());
    }
}

/// Once an instruction was rejected, the rest of the program does not change the error.
pub proof fn lemma_body_error_stays<T: AotExecutor>(
    program: Program,
    emitters: Seq<T>,
    i: int,
    j: int,
)
    requires
        0 <= i <= j,
        body_upto(program, emitters, i) is Err,
    ensures
        body_upto(program, emitters, j) == body_upto(program, emitters, i),
    decreases j - i,
{
    if i < j {
        lemma_body_error_stays(program, emitters, i, j - 1);
    }
}

/// Compiles an executable with the emitters of the RV32IM extension: the base ALU
/// executor, at the offset of its opcode class.
pub fn compile_and_execute_aot(exe: &VmExe) -> (compiled: Result<String, AotError>)
    requires
        exe.program.wf(),
    ensures
        compiled_view(compiled) == spec_compile(
            *exe,
            seq![BaseAluExecutor { offset: BASE_ALU_CLASS_OFFSET }],
        ),
{
    let aot_executors: [BaseAluExecutor; 1] = [BaseAluExecutor::new(BASE_ALU_CLASS_OFFSET)];
    let mut compiler = AotCompiler::new();
    assert(aot_executors@ =~= seq![BaseAluExecutor { offset: BASE_ALU_CLASS_OFFSET }]);
    compiler.compile(exe, aot_executors.as_slice())
}

} // verus!
