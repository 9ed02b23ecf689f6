use openvm_aot::base_alu::BaseAluExecutor;
use openvm_aot::compiler::{compile_and_execute_aot, find_fragment, AotCompiler};
use openvm_aot::error::AotError;
use openvm_aot::executor::AotExecutor;
use openvm_aot::instruction::{
    BaseAluOpcode, Instruction, Program, VmExe, VmOpcode, BASE_ALU_CLASS_OFFSET, RV32_IMM_AS,
    RV32_MEMORY_AS, RV32_REGISTER_AS,
};

fn alu(op: BaseAluOpcode, a: u32, b: u32, c: u32, e: u32) -> Instruction {
    Instruction { opcode: op.global_opcode(), a, b, c, d: RV32_REGISTER_AS, e, f: 0, g: 0 }
}

fn foreign() -> Instruction {
    Instruction { opcode: VmOpcode::from_usize(0x300), a: 1, b: 2, c: 3, d: 9, e: 9, f: 0, g: 0 }
}

#[test]
fn single_instruction_unit_exact() {
    let program = Program::from_instructions(&[alu(BaseAluOpcode::ADD, 1, 0, 42, RV32_IMM_AS)]);
    let exe = VmExe::new(program, 0);
    assert_eq!(compile_and_execute_aot(&exe).unwrap(), "; OpenVM AOT Generated Assembly\n; Program: 1 instructions\n; Entry PC: 0x00000000\n\n%define ptr                   ; fragments write `dword ptr`\n\nsection .text\nglobal openvm_aot_entry\nextern openvm_aot_handler\nextern openvm_sync_registers_to_memory\nextern openvm_sync_registers_from_memory\n\nopenvm_aot_entry:\nopenvm_aot_start:\n    ; Function signature:\n    ; rdi = pre_compute ptr\n    ; rsi = instret ptr\n    ; rdx = pc ptr\n    ; rcx = arg\n    ; r8  = state ptr (AotExecState)\n\n    ; Save callee-saved registers\n    push rbp\n    mov rbp, rsp\n    push rbx\n    push r12\n    push r13\n    push r14\n    push r15\n\n    ; Save caller parameters\n    push rsi                  ; instret ptr at [rbp - 48]\n    push rcx                  ; arg at [rbp - 56]\n    push rdi                  ; pre_compute ptr at [rbp - 64], keeps the stack aligned\n\n    ; Allocate local register array\n    sub rsp, 128              ; 32 registers * 4 bytes\n\n    ; Set up register allocation\n    mov rbx, rsp              ; rbx = local register array\n    mov r12, rdi              ; r12 = pre_compute\n    mov r13, r8               ; r13 = state ptr\n    mov r14, rdx              ; r14 = pc ptr\n\n    ; Load registers from guest memory\n    mov rdi, r13              ; state ptr\n    mov rsi, rbx              ; register buffer\n    call openvm_sync_registers_from_memory\n\n    ; Load initial PC and jump\n    mov eax, [r14]            ; Load PC\n    cmp eax, 00000000h\n    jne .fallback_handler\n    jmp .pc_00000000\n\n.pc_00000000:\n    ; addi x1, x0, 42 (rd=rs1+imm)\n    mov dword ptr [rbx + 4], 42  ; x1 = 42\n    ; Update instret\n    mov rax, [rbp - 48]      ; Load instret ptr\n    inc qword [rax]          ; Increment\n    ; Update PC\n    mov dword [r14], 00000004h  ; Update PC\n    ; Check if next PC is within program bounds\n    cmp dword [r14], 00000004h  ; Compare with program end\n    jae .fallback_handler    ; Hand over if PC >= program end\n    jmp .fallback_handler\n\n.fallback_handler:\n    ; Sync registers to guest memory before external call\n    mov rdi, r13              ; state ptr\n    mov rsi, rbx              ; register buffer\n    call openvm_sync_registers_to_memory\n\n    ; Call external handler for unsupported instruction\n    mov rdi, r12              ; pre_compute ptr\n    mov rsi, [rbp - 48]       ; instret ptr\n    mov rdx, r14              ; pc ptr\n    mov rcx, [rbp - 56]       ; arg\n    mov r8, r13               ; state\n    call openvm_aot_handler\n\n    ; Sync registers from guest memory after external call\n    mov rdi, r13              ; state ptr\n    mov rsi, rbx              ; register buffer\n    call openvm_sync_registers_from_memory\n\n    ; The handler has taken over; its program counter is in the pc cell\n    jmp .exit\n\n.exit:\n    ; Clean up stack\n    lea rsp, [rbp - 40]       ; Remove register array and caller parameters\n    ; Restore callee-saved registers\n    pop r15\n    pop r14\n    pop r13\n    pop r12\n    pop rbx\n    pop rbp\n    ret\n");
}

#[test]
fn three_instruction_unit_exact() {
    let program = Program::from_instructions(&[
        alu(BaseAluOpcode::ADD, 1, 0, 10, RV32_IMM_AS),
        alu(BaseAluOpcode::ADD, 2, 0, 32, RV32_IMM_AS),
        alu(BaseAluOpcode::ADD, 3, 1, 2, RV32_REGISTER_AS),
    ]);
    let exe = VmExe::new(program, 0);
    let text = compile_and_execute_aot(&exe).unwrap();
    assert_eq!(text, "; OpenVM AOT Generated Assembly\n; Program: 3 instructions\n; Entry PC: 0x00000000\n\n%define ptr                   ; fragments write `dword ptr`\n\nsection .text\nglobal openvm_aot_entry\nextern openvm_aot_handler\nextern openvm_sync_registers_to_memory\nextern openvm_sync_registers_from_memory\n\nopenvm_aot_entry:\nopenvm_aot_start:\n    ; Function signature:\n    ; rdi = pre_compute ptr\n    ; rsi = instret ptr\n    ; rdx = pc ptr\n    ; rcx = arg\n    ; r8  = state ptr (AotExecState)\n\n    ; Save callee-saved registers\n    push rbp\n    mov rbp, rsp\n    push rbx\n    push r12\n    push r13\n    push r14\n    push r15\n\n    ; Save caller parameters\n    push rsi                  ; instret ptr at [rbp - 48]\n    push rcx                  ; arg at [rbp - 56]\n    push rdi                  ; pre_compute ptr at [rbp - 64], keeps the stack aligned\n\n    ; Allocate local register array\n    sub rsp, 128              ; 32 registers * 4 bytes\n\n    ; Set up register allocation\n    mov rbx, rsp              ; rbx = local register array\n    mov r12, rdi              ; r12 = pre_compute\n    mov r13, r8               ; r13 = state ptr\n    mov r14, rdx              ; r14 = pc ptr\n\n    ; Load registers from guest memory\n    mov rdi, r13              ; state ptr\n    mov rsi, rbx              ; register buffer\n    call openvm_sync_registers_from_memory\n\n    ; Load initial PC and jump\n    mov eax, [r14]            ; Load PC\n    cmp eax, 00000000h\n    jne .fallback_handler\n    jmp .pc_00000000\n\n.pc_00000000:\n    ; addi x1, x0, 10 (rd=rs1+imm)\n    mov dword ptr [rbx + 4], 10  ; x1 = 10\n    ; Update instret\n    mov rax, [rbp - 48]      ; Load instret ptr\n    inc qword [rax]          ; Increment\n    ; Update PC\n    mov dword [r14], 00000004h  ; Update PC\n    ; Check if next PC is within program bounds\n    cmp dword [r14], 0000000ch  ; Compare with program end\n    jae .fallback_handler    ; Hand over if PC >= program end\n    jmp .pc_00000004\n\n.pc_00000004:\n    ; addi x2, x0, 32 (rd=rs1+imm)\n    mov dword ptr [rbx + 8], 32  ; x2 = 32\n    ; Update instret\n    mov rax, [rbp - 48]      ; Load instret ptr\n    inc qword [rax]          ; Increment\n    ; Update PC\n    mov dword [r14], 00000008h  ; Update PC\n    ; Check if next PC is within program bounds\n    cmp dword [r14], 0000000ch  ; Compare with program end\n    jae .fallback_handler    ; Hand over if PC >= program end\n    jmp .pc_00000008\n\n.pc_00000008:\n    ; add x3, x1, x2 (rd=rs1+rs2)\n    mov r15d, dword ptr [rbx + 4] ; Load x1\n    add r15d, dword ptr [rbx + 8] ; Add x2\n    mov dword ptr [rbx + 12], r15d ; Store to x3\n    ; Update instret\n    mov rax, [rbp - 48]      ; Load instret ptr\n    inc qword [rax]          ; Increment\n    ; Update PC\n    mov dword [r14], 0000000ch  ; Update PC\n    ; Check if next PC is within program bounds\n    cmp dword [r14], 0000000ch  ; Compare with program end\n    jae .fallback_handler    ; Hand over if PC >= program end\n    jmp .fallback_handler\n\n.fallback_handler:\n    ; Sync registers to guest memory before external call\n    mov rdi, r13              ; state ptr\n    mov rsi, rbx              ; register buffer\n    call openvm_sync_registers_to_memory\n\n    ; Call external handler for unsupported instruction\n    mov rdi, r12              ; pre_compute ptr\n    mov rsi, [rbp - 48]       ; instret ptr\n    mov rdx, r14              ; pc ptr\n    mov rcx, [rbp - 56]       ; arg\n    mov r8, r13               ; state\n    call openvm_aot_handler\n\n    ; Sync registers from guest memory after external call\n    mov rdi, r13              ; state ptr\n    mov rsi, rbx              ; register buffer\n    call openvm_sync_registers_from_memory\n\n    ; The handler has taken over; its program counter is in the pc cell\n    jmp .exit\n\n.exit:\n    ; Clean up stack\n    lea rsp, [rbp - 40]       ; Remove register array and caller parameters\n    ; Restore callee-saved registers\n    pop r15\n    pop r14\n    pop r13\n    pop r12\n    pop rbx\n    pop rbp\n    ret\n");
    // each claimed block stores the program counter of the next slot
    assert!(text.contains(".pc_00000000:\n    ; addi x1, x0, 10"));
    assert!(text.contains("mov dword [r14], 00000004h  ; Update PC"));
    assert!(text.contains("mov dword [r14], 00000008h  ; Update PC"));
    assert!(text.contains("mov dword [r14], 0000000ch  ; Update PC"));
    assert_eq!(text.matches("cmp dword [r14], 0000000ch").count(), 3);
    assert_eq!(text.matches("inc qword [rax]").count(), 3);
}

#[test]
fn empty_program_goes_to_the_handler() {
    let exe = VmExe::new(Program::from_instructions(&[]), 0);
    let text = compile_and_execute_aot(&exe).unwrap();
    assert_eq!(text, "; OpenVM AOT Generated Assembly\n; Program: 0 instructions\n; Entry PC: 0x00000000\n\n%define ptr                   ; fragments write `dword ptr`\n\nsection .text\nglobal openvm_aot_entry\nextern openvm_aot_handler\nextern openvm_sync_registers_to_memory\nextern openvm_sync_registers_from_memory\n\nopenvm_aot_entry:\nopenvm_aot_start:\n    ; Function signature:\n    ; rdi = pre_compute ptr\n    ; rsi = instret ptr\n    ; rdx = pc ptr\n    ; rcx = arg\n    ; r8  = state ptr (AotExecState)\n\n    ; Save callee-saved registers\n    push rbp\n    mov rbp, rsp\n    push rbx\n    push r12\n    push r13\n    push r14\n    push r15\n\n    ; Save caller parameters\n    push rsi                  ; instret ptr at [rbp - 48]\n    push rcx                  ; arg at [rbp - 56]\n    push rdi                  ; pre_compute ptr at [rbp - 64], keeps the stack aligned\n\n    ; Allocate local register array\n    sub rsp, 128              ; 32 registers * 4 bytes\n\n    ; Set up register allocation\n    mov rbx, rsp              ; rbx = local register array\n    mov r12, rdi              ; r12 = pre_compute\n    mov r13, r8               ; r13 = state ptr\n    mov r14, rdx              ; r14 = pc ptr\n\n    ; Load registers from guest memory\n    mov rdi, r13              ; state ptr\n    mov rsi, rbx              ; register buffer\n    call openvm_sync_registers_from_memory\n\n    ; Load initial PC and jump\n    mov eax, [r14]            ; Load PC\n    cmp eax, 00000000h\n    jne .fallback_handler\n    jmp .fallback_handler\n\n.fallback_handler:\n    ; Sync registers to guest memory before external call\n    mov rdi, r13              ; state ptr\n    mov rsi, rbx              ; register buffer\n    call openvm_sync_registers_to_memory\n\n    ; Call external handler for unsupported instruction\n    mov rdi, r12              ; pre_compute ptr\n    mov rsi, [rbp - 48]       ; instret ptr\n    mov rdx, r14              ; pc ptr\n    mov rcx, [rbp - 56]       ; arg\n    mov r8, r13               ; state\n    call openvm_aot_handler\n\n    ; Sync registers from guest memory after external call\n    mov rdi, r13              ; state ptr\n    mov rsi, rbx              ; register buffer\n    call openvm_sync_registers_from_memory\n\n    ; The handler has taken over; its program counter is in the pc cell\n    jmp .exit\n\n.exit:\n    ; Clean up stack\n    lea rsp, [rbp - 40]       ; Remove register array and caller parameters\n    ; Restore callee-saved registers\n    pop r15\n    pop r14\n    pop r13\n    pop r12\n    pop rbx\n    pop rbp\n    ret\n");
    assert!(!text.contains(".pc_"));
    assert!(text.contains("; Program: 0 instructions"));
}

#[test]
fn empty_emitter_list_delegates_every_instruction() {
    let program = Program::from_instructions(&[alu(BaseAluOpcode::ADD, 1, 0, 42, RV32_IMM_AS)]);
    let exe = VmExe::new(program, 0);
    let emitters: Vec<BaseAluExecutor> = vec![];
    let mut compiler = AotCompiler::new();
    let text = compiler.compile(&exe, &emitters).unwrap();
    assert_eq!(text, "; OpenVM AOT Generated Assembly\n; Program: 1 instructions\n; Entry PC: 0x00000000\n\n%define ptr                   ; fragments write `dword ptr`\n\nsection .text\nglobal openvm_aot_entry\nextern openvm_aot_handler\nextern openvm_sync_registers_to_memory\nextern openvm_sync_registers_from_memory\n\nopenvm_aot_entry:\nopenvm_aot_start:\n    ; Function signature:\n    ; rdi = pre_compute ptr\n    ; rsi = instret ptr\n    ; rdx = pc ptr\n    ; rcx = arg\n    ; r8  = state ptr (AotExecState)\n\n    ; Save callee-saved registers\n    push rbp\n    mov rbp, rsp\n    push rbx\n    push r12\n    push r13\n    push r14\n    push r15\n\n    ; Save caller parameters\n    push rsi                  ; instret ptr at [rbp - 48]\n    push rcx                  ; arg at [rbp - 56]\n    push rdi                  ; pre_compute ptr at [rbp - 64], keeps the stack aligned\n\n    ; Allocate local register array\n    sub rsp, 128              ; 32 registers * 4 bytes\n\n    ; Set up register allocation\n    mov rbx, rsp              ; rbx = local register array\n    mov r12, rdi              ; r12 = pre_compute\n    mov r13, r8               ; r13 = state ptr\n    mov r14, rdx              ; r14 = pc ptr\n\n    ; Load registers from guest memory\n    mov rdi, r13              ; state ptr\n    mov rsi, rbx              ; register buffer\n    call openvm_sync_registers_from_memory\n\n    ; Load initial PC and jump\n    mov eax, [r14]            ; Load PC\n    cmp eax, 00000000h\n    jne .fallback_handler\n    jmp .pc_00000000\n\n.pc_00000000:\n    ; No AOT implementation - call external handler\n    mov dword [r14], 00000000h  ; Update PC\n    jmp .fallback_handler\n\n.fallback_handler:\n    ; Sync registers to guest memory before external call\n    mov rdi, r13              ; state ptr\n    mov rsi, rbx              ; register buffer\n    call openvm_sync_registers_to_memory\n\n    ; Call external handler for unsupported instruction\n    mov rdi, r12              ; pre_compute ptr\n    mov rsi, [rbp - 48]       ; instret ptr\n    mov rdx, r14              ; pc ptr\n    mov rcx, [rbp - 56]       ; arg\n    mov r8, r13               ; state\n    call openvm_aot_handler\n\n    ; Sync registers from guest memory after external call\n    mov rdi, r13              ; state ptr\n    mov rsi, rbx              ; register buffer\n    call openvm_sync_registers_from_memory\n\n    ; The handler has taken over; its program counter is in the pc cell\n    jmp .exit\n\n.exit:\n    ; Clean up stack\n    lea rsp, [rbp - 40]       ; Remove register array and caller parameters\n    ; Restore callee-saved registers\n    pop r15\n    pop r14\n    pop r13\n    pop r12\n    pop rbx\n    pop rbp\n    ret\n");
    assert_eq!(compiler.assembly, text);
}

#[test]
fn foreign_opcode_is_not_claimed() {
    let program = Program::from_instructions(&[foreign(), alu(BaseAluOpcode::XOR, 3, 1, 2, RV32_REGISTER_AS)]);
    let exe = VmExe::new(program, 0);
    let text = compile_and_execute_aot(&exe).unwrap();
    assert!(text.contains(".pc_00000000:\n    ; No AOT implementation - call external handler\n    mov dword [r14], 00000000h  ; Update PC\n    jmp .fallback_handler\n\n.pc_00000004:\n    ; xor x3, x1, x2"));
    let executor = BaseAluExecutor::new(BASE_ALU_CLASS_OFFSET);
    assert_eq!(executor.generate_aot_assembly(0, &foreign()), Ok(None));
    let below = Instruction { opcode: VmOpcode::from_usize(0x1ff), ..foreign() };
    assert_eq!(executor.generate_aot_assembly(0, &below), Ok(None));
    let above = Instruction { opcode: VmOpcode::from_usize(0x205), ..foreign() };
    assert_eq!(executor.generate_aot_assembly(0, &above), Ok(None));
}

#[test]
fn invalid_operand_format_names_the_pc() {
    let mut bad = alu(BaseAluOpcode::ADD, 1, 2, 3, RV32_REGISTER_AS);
    bad.d = RV32_MEMORY_AS;
    let program = Program::from_instructions(&[alu(BaseAluOpcode::ADD, 1, 0, 42, RV32_IMM_AS), bad]);
    let exe = VmExe::new(program, 0);
    assert_eq!(compile_and_execute_aot(&exe), Err(AotError::InvalidInstruction(4)));
    let mut bad = alu(BaseAluOpcode::AND, 1, 2, 3, RV32_MEMORY_AS);
    let executor = BaseAluExecutor::new(BASE_ALU_CLASS_OFFSET);
    assert_eq!(executor.generate_aot_assembly(0x80, &bad), Err(AotError::InvalidInstruction(0x80)));
    bad.e = RV32_IMM_AS;
    assert!(executor.generate_aot_assembly(0x80, &bad).unwrap().is_some());
    let mut compiler = AotCompiler::new();
    let program = Program::from_instructions(&[alu(BaseAluOpcode::SUB, 1, 2, 3, 7)]);
    let exe = VmExe::new(program, 0);
    assert_eq!(compiler.compile(&exe, &[executor]), Err(AotError::InvalidInstruction(0)));
    assert_eq!(compiler.assembly, "");
}

#[test]
fn first_emitter_in_list_order_wins() {
    // the first executor does not know the opcode, the second one claims it
    let emitters = [BaseAluExecutor::new(0x400), BaseAluExecutor::new(BASE_ALU_CLASS_OFFSET)];
    let inst = alu(BaseAluOpcode::OR, 7, 0, 255, RV32_IMM_AS);
    assert_eq!(
        find_fragment(&emitters, 0, &inst),
        Ok(Some("    ; ori x7, x0, 255 (rd=rs1|imm)\n    mov dword ptr [rbx + 28], 255  ; x7 = 0|255".to_string()))
    );
    // an executor whose class starts one opcode earlier reads OR as AND and comes first
    let emitters = [BaseAluExecutor::new(BASE_ALU_CLASS_OFFSET - 1), BaseAluExecutor::new(BASE_ALU_CLASS_OFFSET)];
    assert_eq!(
        find_fragment(&emitters, 0, &inst),
        Ok(Some("    ; andi x7, x0, 255 (rd=rs1&imm)\n    mov dword ptr [rbx + 28], 0  ; x7 = 0&255 = 0".to_string()))
    );
    // an error of an executor that is asked first is the answer
    let mut bad = inst;
    bad.d = 0;
    assert_eq!(find_fragment(&emitters, 12, &bad), Err(AotError::InvalidInstruction(12)));
    let none: [BaseAluExecutor; 0] = [];
    assert_eq!(find_fragment(&none, 12, &bad), Ok(None));
}

#[test]
fn entry_not_at_an_instruction_enters_through_the_handler() {
    let program = Program::from_instructions(&[alu(BaseAluOpcode::ADD, 1, 0, 42, RV32_IMM_AS)]);
    let text = compile_and_execute_aot(&VmExe::new(program, 8)).unwrap();
    assert!(text.contains("; Entry PC: 0x00000008"));
    assert!(text.contains("    cmp eax, 00000008h\n    jne .fallback_handler\n    jmp .fallback_handler\n\n"));
    let program = Program {
        pc_base: 0x100,
        instructions: vec![None, Some(alu(BaseAluOpcode::ADD, 1, 0, 42, RV32_IMM_AS)), None],
    };
    assert_eq!(program.num_defined_instructions(), 1);
    assert_eq!(program.len(), 3);
    assert!(!program.is_empty());
    assert_eq!(program.end_pc(), 0x10c);
    assert_eq!(program.pc_of(1), 0x104);
    assert!(program.has_instruction_at(0x104));
    assert!(!program.has_instruction_at(0x100));
    assert!(!program.has_instruction_at(0x106));
    assert!(!program.has_instruction_at(0x10c));
    assert!(!program.has_instruction_at(4));
    let text = compile_and_execute_aot(&VmExe::new(program, 0x104)).unwrap();
    assert!(text.contains("    jne .fallback_handler\n    jmp .pc_00000104\n\n.pc_00000104:\n"));
    assert!(text.contains("; Program: 1 instructions"));
    // the slot behind the instruction is undefined: the block leaves through the handler
    assert!(text.contains("    cmp dword [r14], 0000010ch  ; Compare with program end\n    jae .fallback_handler    ; Hand over if PC >= program end\n    jmp .fallback_handler\n\n.fallback_handler:"));
    assert!(!text.contains(".pc_00000100"));
    assert!(!text.contains(".pc_00000108"));
}

#[test]
fn symbols_of_the_unit() {
    let exe = VmExe::new(Program::from_instructions(&[foreign()]), 0);
    let text = compile_and_execute_aot(&exe).unwrap();
    assert!(text.contains("\nglobal openvm_aot_entry\n"));
    assert!(text.contains("\nopenvm_aot_entry:\n"));
    assert_eq!(text.matches("global ").count(), 1);
    let externs: Vec<&str> = text.lines().filter(|line| line.starts_with("extern ")).collect();
    assert_eq!(
        externs,
        [
            "extern openvm_aot_handler",
            "extern openvm_sync_registers_to_memory",
            "extern openvm_sync_registers_from_memory",
        ]
    );
    assert!(text.ends_with("    pop rbp\n    ret\n"));
    assert!(text.contains("    sub rsp, 128 "));
    assert!(text.contains("    lea rsp, [rbp - 40] "));
}

#[test]
fn opcodes_of_the_base_alu_class() {
    assert_eq!(BASE_ALU_CLASS_OFFSET, 0x200);
    let all = [BaseAluOpcode::ADD, BaseAluOpcode::SUB, BaseAluOpcode::XOR, BaseAluOpcode::OR, BaseAluOpcode::AND];
    for (index, op) in all.iter().enumerate() {
        assert_eq!(op.local_usize(), index);
        assert_eq!(op.global_opcode(), VmOpcode(0x200 + index));
        assert_eq!(op.global_opcode().as_usize(), 0x200 + index);
        assert_eq!(op.global_opcode().local_opcode_idx(0x200), index);
        assert_eq!(BaseAluOpcode::from_usize(index), Some(*op));
    }
    assert_eq!(BaseAluOpcode::from_usize(5), None);
    assert_eq!(BaseAluOpcode::from_usize(usize::MAX), None);
}
