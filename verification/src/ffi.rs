//! Executing a program ahead of time: what is decided before the generated
//! code is entered, and what is read back when it returns.
//!
//! The call into the generated code itself is made outside of this library, by
//! whoever holds the loaded runtime. It passes, in the order of the entry-point
//! convention, a null pointer for the pre-computation buffer, pointers to the
//! count of retired instructions and to the program counter, an argument of zero,
//! and a pointer to the execution state. The emitters handed to the compiler have
//! to be those that the register shims and the handler of the runtime were built
//! for.

use vstd::prelude::*;
use vstd::string::*;
use crate::compiler::{compiled_view, spec_compile, AotCompiler};
use crate::error::AotError;
use crate::executor::AotExecutor;
use crate::instruction::{VmExe, TERMINATE_PC};
use crate::memory::{AotExecState, GuestMemory, VmState};
use crate::runtime::{
    default_handler_text, spec_object_format, AotRuntimeBuilder, BuildPlan, HostOs,
};

verus! {

/// The handler text that a build uses for an optional handler source.
pub open spec fn handler_text_or_default(handler_source: Option<&str>) -> Seq<char> {
    match handler_source {
        Some(source) => source@,
        None => default_handler_text(),
    }
}

/// What compiling and planning gives for an executable on a host: the plan
/// with the compiled assembly, the error of the compiler, or, where the program
/// compiles and the host has no known object format, that the platform is not
/// supported.
pub open spec fn plan_matches<T: AotExecutor>(
    planned: Result<BuildPlan, AotError>,
    exe: VmExe,
    emitters: Seq<T>,
    handler_text: Seq<char>,
    os: HostOs,
) -> bool {
    match planned {
        Ok(plan) => {
            &&& spec_compile(exe, emitters) == Ok::<Seq<char>, AotError>(plan.assembly@)
            &&& spec_object_format(os) is Some
            &&& plan.wf()
            &&& plan.os == os
            &&& plan.handler_source@ == handler_text
        },
        Err(error) => match spec_compile(exe, emitters) {
            Err(rejected) => error == rejected,
            Ok(text) => spec_object_format(os) is None && error == AotError::UnsupportedPlatform,
        },
    }
}

/// Compiles an executable and plans the build of its runtime on a host.
pub fn plan_runtime<T: AotExecutor>(
    exe: &VmExe,
    aot_executors: &[T],
    handler_source: Option<&str>,
    os: HostOs,
) -> (planned: Result<BuildPlan, AotError>)
    requires
        exe.program.wf(),
    ensures
        plan_matches(planned, *exe, aot_executors@, handler_text_or_default(handler_source), os),
{
    let mut compiler = AotCompiler::new();
    let assembly = match compiler.compile(exe, aot_executors) {
        Ok(assembly) => assembly,
        Err(error) => {
            return Err(error);
        },
    };
    let mut builder = AotRuntimeBuilder::new(assembly);
    match handler_source {
        Some(source) => {
            builder = builder.with_handler_source(source);
        },
        None => {},
    }
    builder.plan(os)
}

/// The state in which an execution starts: nothing retired yet, the program
/// counter at the start, empty streams and a seed of zero.
pub fn initial_state(pc_start: u32, initial_memory: GuestMemory, num_public_values: usize) -> (state:
    AotExecState)
    ensures
        state.vm_state.instret == 0,
        state.vm_state.pc == pc_start,
        state.vm_state.memory == initial_memory,
        state.vm_state.input_stream@.len() == 0,
        state.vm_state.output_stream@.len() == 0,
        state.vm_state.seed == 0,
        state.vm_state.num_public_values == num_public_values,
{
    AotExecState::new(
        VmState::new_with_defaults(0, pc_start, initial_memory, 0, num_public_values),
    )
}

/// The state of the machine after the entry point returned: the execution
/// state as the generated code and the handler left it, with the count of
/// retired instructions and the program counter read back from their cells.
pub fn read_back(state: AotExecState, instret: u64, pc: u32) -> (vm_state: VmState)
    ensures
        vm_state == (VmState { instret, pc, ..state.vm_state }),
{
    let mut vm_state = state.vm_state;
    vm_state.instret = instret;
    vm_state.pc = pc;
    vm_state
}

/// Whether a program counter is the value by which a handler ends the execution.
pub fn is_terminated(pc: u32) -> (terminated: bool)
    ensures
        terminated == (pc == TERMINATE_PC),
{
    pc == TERMINATE_PC
}

/// A program compiled for execution, with the plan of its runtime.
#[derive(Debug)]
pub struct AotExecutionContext {
    pub plan: Option<BuildPlan>,
}

impl AotExecutionContext {
    pub fn new() -> (context: Self)
        ensures
            context.plan is None,
    {
        AotExecutionContext { plan: None }
    }

    /// Compiles an executable and keeps the plan of its runtime. After an error
    /// the context holds what it held before.
    pub fn compile<T: AotExecutor>(
        &mut self,
        exe: &VmExe,
        aot_executors: &[T],
        handler_source: Option<&str>,
        os: HostOs,
    ) -> (done: Result<(), AotError>)
        requires
            exe.program.wf(),
        ensures
            match done {
                Ok(()) => final(self).plan matches Some(plan) && plan_matches(
                    Ok::<BuildPlan, AotError>(plan),
                    *exe,
                    aot_executors@,
                    handler_text_or_default(handler_source),
                    os,
                ),
                Err(error) => final(self).plan == old(self).plan && plan_matches(
                    Err::<BuildPlan, AotError>(error),
                    *exe,
                    aot_executors@,
                    handler_text_or_default(handler_source),
                    os,
                ),
            },
    {
        match plan_runtime(exe, aot_executors, handler_source, os) {
            Ok(plan) => {
                self.plan = Some(plan);
                Ok(())
            },
            Err(error) => Err(error),
        }
    }

    /// The state in which the compiled program starts, once a program was compiled.
    pub fn start(&self, initial_memory: GuestMemory, pc_start: u32) -> (started: Result<
        AotExecState,
        AotError,
    >)
        ensures
            match started {
                Ok(state) => {
                    &&& self.plan is Some
                    &&& state.vm_state.instret == 0
                    &&& state.vm_state.pc == pc_start
                    &&& state.vm_state.memory == initial_memory
                    &&& state.vm_state.input_stream@.len() == 0
                    &&& state.vm_state.output_stream@.len() == 0
                    &&& state.vm_state.seed == 0
                    &&& state.vm_state.num_public_values == 0
                },
                Err(error) => self.plan is None && error == AotError::NoCompiledCode,
            },
    {
        if self.plan.is_none() {
            return Err(AotError::NoCompiledCode);
        }
        Ok(initial_state(pc_start, initial_memory, 0))
    }
}

} // verus!
