//! What the generated code does, carried out on the execution state itself.
//!
//! The generated code fills its register buffer from guest memory, runs the
//! blocks of the instructions that the base ALU emitter claims one after the
//! other from the entry program counter on, and writes the buffer back to guest
//! memory when it meets a block that it cannot run or leaves the program. What
//! comes then, the call of the handler, is not part of this module.
//!
//! The register buffer has thirty-two slots. What is said here holds of programs
//! whose claimed instructions name registers below thirty-two only; a fragment
//! for any other register reaches outside of the buffer, and nothing is said of it.

use vstd::prelude::*;
use crate::base_alu::{
    lower, registers_in_buffer, spec_decode, spec_lower, AluInstruction, BaseAluExecutor, Operand,
};
use crate::error::AotError;
use crate::host::{execute_lines, run, slots_in_buffer, HostState, Line, NUM_REGISTERS};
use crate::instruction::{Program, VmExe, DEFAULT_PC_STEP};
use crate::memory::AotExecState;
use crate::register_ops::{without_zero_register, AotRegisterOps};

verus! {

/// What the generated code keeps track of while it runs: the program counter,
/// the count of retired instructions and the register buffer.
pub ghost struct RunState {
    pub pc: u32,
    pub instret: u64,
    pub regs: Seq<u32>,
}

/// The instruction of slot `index` as the generated code runs it: the slot
/// holds an instruction and the base ALU emitter claims it.
pub open spec fn runs_at(program: Program, offset: usize, index: int) -> Option<AluInstruction> {
    if 0 <= index < program.instructions@.len() {
        match program.instructions@[index] {
            Some(inst) => match spec_decode(offset, program.spec_pc_of(index) as u32, inst) {
                Ok(Some(alu)) => Some(alu),
                _ => None,
            },
            None => None,
        }
    } else {
        None
    }
}

/// Every instruction of the program that the base ALU emitter claims names
/// registers among the thirty-two of the buffer.
pub open spec fn spec_stays_in_buffer(program: Program, offset: usize) -> bool {
    forall|index: int| #[trigger] in_buffer_at(program, offset, index)
}

/// Slot `index` holds no instruction that the base ALU emitter claims, or one
/// whose registers are among the thirty-two of the buffer.
pub open spec fn in_buffer_at(program: Program, offset: usize, index: int) -> bool {
    match runs_at(program, offset, index) {
        Some(alu) => registers_in_buffer(alu.rd, alu.rs1, alu.operand),
        None => true,
    }
}

/// Whether the registers of an instruction are among the thirty-two of the buffer.
pub fn in_buffer(alu: &AluInstruction) -> (inside: bool)
    ensures
        inside == registers_in_buffer(alu.rd, alu.rs1, alu.operand),
{
    alu.rd < 32 && alu.rs1 < 32 && match alu.operand {
        Operand::Reg(rs2) => rs2 < 32,
        Operand::Imm(_) => true,
    }
}

/// Whether every instruction of the program that the executor claims names
/// registers among the thirty-two of the buffer.
pub fn stays_in_buffer(program: &Program, executor: &BaseAluExecutor) -> (inside: bool)
    requires
        program.wf(),
    ensures
        inside == spec_stays_in_buffer(*program, executor.offset),
{
    let n = program.len();
    let mut index: usize = 0;
    while index < n
        invariant
            program.wf(),
            n == program.instructions@.len(),
            index <= n,
            forall|k: int| 0 <= k < index ==> #[trigger] in_buffer_at(*program, executor.offset, k),
        decreases n - index,
    {
        match program.instructions[index] {
            Some(inst) => {
                let pc = program.pc_of(index);
                match executor.decode(pc, &inst) {
                    Ok(Some(alu)) => {
                        if !in_buffer(&alu) {
                            assert(!in_buffer_at(*program, executor.offset, index as int));
                            return false;
                        }
                    },
                    _ => {},
                }
            },
            None => {},
        }
        index = index + 1;
    }
    assert forall|k: int| #[trigger] in_buffer_at(*program, executor.offset, k) by {
        if 0 <= k < n {
        }
    }
    true
}

/// The count of retired instructions after one more; the counter of 64 bits wraps.
pub open spec fn next_instret(instret: u64) -> u64 {
    if instret == u64::MAX {
        0
    } else {
        (instret + 1) as u64
    }
}

/// The state after the block of one claimed instruction: the fragment has
/// worked on the register buffer, the instruction is counted, and the program
/// counter is the one of the next slot.
pub open spec fn block_step(alu: AluInstruction, state: RunState) -> RunState {
    RunState {
        pc: (state.pc + DEFAULT_PC_STEP) as u32,
        instret: next_instret(state.instret),
        regs: run(
            spec_lower(alu.op, alu.rd, alu.rs1, alu.operand),
            HostState { regs: state.regs, scratch: 0 },
        ).regs,
    }
}

/// The state in which the generated code hands over, when it stands before slot `index`.
pub open spec fn run_from(program: Program, offset: usize, index: int, state: RunState) -> RunState
    decreases program.instructions@.len() - index,
{
    match runs_at(program, offset, index) {
        Some(alu) => run_from(program, offset, index + 1, block_step(alu, state)),
        None => state,
    }
}

/// The slot at which the generated code starts for a program counter handed
/// in: the slot of the entry program counter, if that is the one handed in and
/// the slot holds an instruction.
pub open spec fn entry_index(exe: VmExe, pc: u32) -> Option<int> {
    if pc == exe.pc_start && exe.program.spec_has_instruction_at(pc) {
        Some((pc - exe.program.pc_base) / (DEFAULT_PC_STEP as int))
    } else {
        None
    }
}

/// The state in which the generated code hands over.
pub open spec fn spec_run_emitted(exe: VmExe, offset: usize, state: RunState) -> RunState {
    match entry_index(exe, state.pc) {
        Some(index) => run_from(exe.program, offset, index, state),
        None => state,
    }
}

/// Runs the blocks that the generated code runs, from the program counter of
/// the state on, and leaves the state as the generated code hands it over:
/// registers written back to guest memory, program counter and count of
/// retired instructions as the blocks left them.
pub fn run_emitted(exe: &VmExe, executor: &BaseAluExecutor, state: &mut AotExecState)
    requires
        exe.program.wf(),
        spec_stays_in_buffer(exe.program, executor.offset),
        old(state).has_registers(),
    ensures
        final(state).has_registers(),
        final(state).same_but_registers(
            &AotExecState {
                vm_state: crate::memory::VmState {
                    pc: final(state).vm_state.pc,
                    instret: final(state).vm_state.instret,
                    ..old(state).vm_state
                },
            },
        ),
        ({
            let handed_over = spec_run_emitted(
                *exe,
                executor.offset,
                RunState {
                    pc: old(state).vm_state.pc,
                    instret: old(state).vm_state.instret,
                    regs: old(state).registers(),
                },
            );
            &&& final(state).vm_state.pc == handed_over.pc
            &&& final(state).vm_state.instret == handed_over.instret
            &&& final(state).registers() == without_zero_register(handed_over.regs)
        }),
        final(state).register_bytes().subrange(0, 4) == old(state).register_bytes().subrange(
            0,
            4,
        ),
{
    let mut registers: [u32; 32] = [0;32];
    state.read_all_registers(&mut registers);
    let ghost start = RunState {
        pc: state.vm_state.pc,
        instret: state.vm_state.instret,
        regs: state.registers(),
    };
    let pc = state.vm_state.pc;
    let mut instret = state.vm_state.instret;
    let mut pc_now = pc;
    if pc == exe.pc_start && exe.program.has_instruction_at(pc) {
        let n = exe.program.len();
        let mut index: usize = ((pc - exe.program.pc_base) / DEFAULT_PC_STEP) as usize;
        assert(exe.program.spec_pc_of(index as int) == pc) by {
            let witness = choose|i: int|
                0 <= i < exe.program.instructions@.len() && exe.program.spec_pc_of(i) == pc
                    && (#[trigger] exe.program.instructions@[i]) is Some;
            assert(witness == index);
        }
        loop
            invariant
                exe.program.wf(),
                spec_stays_in_buffer(exe.program, executor.offset),
                n == exe.program.instructions@.len(),
                index <= n,
                pc_now == exe.program.spec_pc_of(index as int),
                registers@.len() == 32,
                spec_run_emitted(*exe, executor.offset, start) == run_from(
                    exe.program,
                    executor.offset,
                    index as int,
                    RunState { pc: pc_now, instret, regs: registers@ },
                ),
            ensures
                spec_run_emitted(*exe, executor.offset, start) == (RunState {
                    pc: pc_now,
                    instret,
                    regs: registers@,
                }),
            decreases n - index,
        {
            if index >= n {
                break ;
            }
            let inst = match exe.program.instructions[index] {
                Some(inst) => inst,
                None => {
                    break ;
                },
            };
            let alu = match executor.decode(pc_now, &inst) {
                Ok(Some(alu)) => alu,
                _ => {
                    break ;
                },
            };
            let lines = lower(alu.op, alu.rd, alu.rs1, alu.operand);
            proof {
                assert(in_buffer_at(exe.program, executor.offset, index as int));
                lemma_lowered_in_buffer(alu);
            }
            execute_lines(&lines, &mut registers);
            instret = if instret == u64::MAX {
                0
            } else {
                instret + 1
            };
            pc_now = exe.program.pc_of(index + 1);
            index = index + 1;
        }
    }
    state.write_all_registers(&registers);
    state.vm_state.pc = pc_now;
    state.vm_state.instret = instret;
}

/// The host instructions of an instruction whose registers lie in the buffer
/// name slots of the buffer only.
pub proof fn lemma_lowered_in_buffer(alu: AluInstruction)
    requires
        registers_in_buffer(alu.rd, alu.rs1, alu.operand),
    ensures
        forall|i: int|
            0 <= i < spec_lower(alu.op, alu.rd, alu.rs1, alu.operand).len() ==> slots_in_buffer(
                #[trigger] spec_lower(alu.op, alu.rd, alu.rs1, alu.operand)[i].insn,
            ),
{
}

/// Program-counter monotonicity. The block of an instruction that the base ALU
/// emitter claims leaves the program counter four above the one it was entered
/// with, and counts exactly one instruction; the fragment itself touches neither.
pub proof fn lemma_block_advances_pc(alu: AluInstruction, state: RunState)
    requires
        state.pc + DEFAULT_PC_STEP <= u32::MAX,
        state.instret < u64::MAX,
    ensures
        block_step(alu, state).pc == state.pc + 4,
        block_step(alu, state).instret == state.instret + 1,
{
}

} // verus!
