use openvm_aot::base_alu::{AluInstruction, BaseAluExecutor, Operand};
use openvm_aot::consistency::{bytes_equal, verify_results_equal, ExecutionResult};
use openvm_aot::error::{AotError, BuildStage};
use openvm_aot::ffi::{initial_state, plan_runtime, AotExecutionContext};
use openvm_aot::instruction::{
    BaseAluOpcode, Instruction, Program, VmExe, BASE_ALU_CLASS_OFFSET, RV32_IMM_AS,
    RV32_REGISTER_AS,
};
use openvm_aot::memory::GuestMemory;
use openvm_aot::runtime::{default_handler_source, HostOs};
use openvm_aot::text::{push_dec, push_hex, push_signed_dec};

fn result(instret: u64, pc: u32, byte: u8) -> ExecutionResult {
    let mut memory = GuestMemory::new(3, 8);
    memory.write(2, 4, [byte, 0, 0, 0]);
    ExecutionResult { instret, pc, memory }
}

#[test]
fn decimal_and_hexadecimal_numerals() {
    let mut text = String::from("n=");
    push_dec(&mut text, 0);
    text.push(' ');
    push_dec(&mut text, 7);
    text.push(' ');
    push_dec(&mut text, 1230);
    text.push(' ');
    push_dec(&mut text, u64::MAX);
    assert_eq!(text, "n=0 7 1230 18446744073709551615");
    let mut text = String::new();
    push_signed_dec(&mut text, -1);
    text.push(' ');
    push_signed_dec(&mut text, i64::MIN);
    text.push(' ');
    push_signed_dec(&mut text, i64::MAX);
    text.push(' ');
    push_signed_dec(&mut text, 0);
    assert_eq!(text, "-1 -9223372036854775808 9223372036854775807 0");
    let mut text = String::new();
    push_hex(&mut text, 0, 8);
    text.push(' ');
    push_hex(&mut text, 0xdead_beef, 8);
    text.push(' ');
    push_hex(&mut text, 0x1_2345_6789, 8);
    text.push(' ');
    push_hex(&mut text, 0xabc, 2);
    text.push(' ');
    push_hex(&mut text, 0xabc, 0);
    assert_eq!(text, "00000000 deadbeef 23456789 bc ");
}

#[test]
fn decode_reads_operand_fields() {
    let executor = BaseAluExecutor::new(BASE_ALU_CLASS_OFFSET);
    let inst = Instruction {
        opcode: BaseAluOpcode::XOR.global_opcode(),
        a: 5,
        b: 6,
        c: 0xffff_fffe,
        d: RV32_REGISTER_AS,
        e: RV32_IMM_AS,
        f: 0,
        g: 0,
    };
    assert_eq!(
        executor.decode(0, &inst),
        Ok(Some(AluInstruction { op: BaseAluOpcode::XOR, rd: 5, rs1: 6, operand: Operand::Imm(-2) }))
    );
    let inst = Instruction { a: 0x105, c: 0x207, e: RV32_REGISTER_AS, ..inst };
    assert_eq!(
        executor.decode(0, &inst),
        Ok(Some(AluInstruction { op: BaseAluOpcode::XOR, rd: 5, rs1: 6, operand: Operand::Reg(7) }))
    );
    assert_eq!(executor.decode(8, &Instruction { e: 2, ..inst }), Err(AotError::InvalidInstruction(8)));
    assert_eq!(executor.decode(8, &Instruction { d: 0, e: 0, ..inst }), Err(AotError::InvalidInstruction(8)));
}

#[test]
fn outcomes_compare_by_count_pc_and_memory() {
    let base = result(10, 40, 1);
    assert!(base.equals(&result(10, 40, 1)));
    assert!(!base.equals(&result(11, 40, 1)));
    assert!(!base.equals(&result(10, 44, 1)));
    assert!(!base.equals(&result(10, 40, 2)));
    assert!(base.memory_equal(&result(0, 0, 1).memory));
    assert!(!base.memory_equal(&GuestMemory::new(4, 8)));
    assert!(!base.memory_equal(&GuestMemory::new(3, 9)));
    assert!(bytes_equal(&vec![1, 2], &vec![1, 2]));
    assert!(!bytes_equal(&vec![1, 2], &vec![1, 3]));
    assert!(!bytes_equal(&vec![1, 2], &vec![1]));
    assert!(bytes_equal(&vec![], &vec![]));
}

#[test]
fn three_modes_agree_or_the_first_difference_is_named() {
    assert_eq!(verify_results_equal(&[result(3, 12, 5), result(3, 12, 5), result(3, 12, 5)]), None);
    assert_eq!(verify_results_equal(&[result(3, 12, 5)]), None);
    assert_eq!(verify_results_equal(&[result(3, 12, 5), result(3, 12, 5), result(4, 12, 5)]), Some(2));
    assert_eq!(verify_results_equal(&[result(3, 12, 5), result(3, 12, 6), result(4, 12, 5)]), Some(1));
}

#[test]
fn planning_a_runtime() {
    let inst = Instruction {
        opcode: BaseAluOpcode::ADD.global_opcode(),
        a: 1,
        b: 0,
        c: 42,
        d: RV32_REGISTER_AS,
        e: RV32_IMM_AS,
        f: 0,
        g: 0,
    };
    let exe = VmExe::new(Program::from_instructions(&[inst]), 0);
    let emitters = [BaseAluExecutor::new(BASE_ALU_CLASS_OFFSET)];
    let plan = plan_runtime(&exe, &emitters, None, HostOs::Linux).unwrap();
    assert!(plan.assembly.contains("mov dword ptr [rbx + 4], 42"));
    assert_eq!(plan.handler_source, default_handler_source());
    let plan = plan_runtime(&exe, &emitters, Some("int x;"), HostOs::MacOs).unwrap();
    assert_eq!(plan.handler_source, "int x;");
    assert_eq!(plan.object_format, "macho64");
    assert_eq!(
        plan_runtime(&exe, &emitters, None, HostOs::Other).err(),
        Some(AotError::UnsupportedPlatform)
    );
    let bad = VmExe::new(Program::from_instructions(&[Instruction { d: 0, ..inst }]), 0);
    assert_eq!(
        plan_runtime(&bad, &emitters, None, HostOs::Other).err(),
        Some(AotError::InvalidInstruction(0))
    );

    let mut context = AotExecutionContext::new();
    assert!(context.plan.is_none());
    assert_eq!(context.start(GuestMemory::new(3, 128), 0).err(), Some(AotError::NoCompiledCode));
    assert_eq!(context.compile(&bad, &emitters, None, HostOs::Linux), Err(AotError::InvalidInstruction(0)));
    assert!(context.plan.is_none());
    assert_eq!(context.compile(&exe, &emitters, None, HostOs::Other), Err(AotError::UnsupportedPlatform));
    assert_eq!(context.compile(&exe, &emitters, None, HostOs::Linux), Ok(()));
    assert_eq!(context.plan.as_ref().map(|p| p.object_format), Some("elf64"));
    let state = context.start(GuestMemory::new(3, 128), 8).unwrap();
    assert_eq!((state.vm_state.pc, state.vm_state.instret, state.vm_state.seed), (8, 0, 0));
    assert_eq!(state.vm_state.num_public_values, 0);
    assert!(state.vm_state.input_stream.is_empty() && state.vm_state.output_stream.is_empty());
    let state = initial_state(16, GuestMemory::new(2, 4), 3);
    assert_eq!((state.vm_state.pc, state.vm_state.num_public_values), (16, 3));
    assert_eq!(state.vm_state.memory.mem, vec![vec![0u8; 4]; 2]);
}

#[test]
fn errors_in_words() {
    assert_eq!(
        AotError::InvalidInstruction(260).message(),
        "AOT compilation failed: invalid instruction at pc 260"
    );
    let failure = |stage| AotError::AotCompileFailure { pc: 0, stage }.message();
    assert_eq!(failure(BuildStage::Assemble), "NASM compilation failed");
    assert_eq!(failure(BuildStage::Compile), "Handler compilation failed");
    assert_eq!(failure(BuildStage::Link), "Linking failed");
    assert_eq!(failure(BuildStage::Load), "Loading the library failed");
    assert_eq!(BuildStage::Link.failure_message(), "Linking failed");
    assert_eq!(AotError::UnsupportedPlatform.message(), "Unsupported platform for AOT compilation");
    assert_eq!(AotError::NoEntryPoint.message(), "Failed to get AOT entry point");
    assert_eq!(AotError::NoCompiledCode.message(), "No compiled code available");
    assert_eq!(
        AotError::SegmentInvariantViolated.message(),
        "Segment should contain at least one cycle"
    );
}
