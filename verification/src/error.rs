//! The errors of the ahead-of-time pipeline.

use vstd::prelude::*;
use vstd::string::*;
use crate::text::{dec, push_dec};

verus! {

/// A stage of building the runtime from assembly text.
#[derive(Clone, Copy, Debug, PartialEq, Eq, Structural)]
pub enum BuildStage {
    /// Turning the assembly text into an object file.
    Assemble,
    /// Compiling the handler source into an object file.
    Compile,
    /// Linking the two object files into a shared library.
    Link,
    /// Loading the shared library.
    Load,
}

#[derive(Clone, Copy, Debug, PartialEq, Eq, Structural)]
pub enum AotError {
    /// An emitter rejected the operand format of the instruction at this program counter.
    InvalidInstruction(u32),
    /// A build stage failed; the failure is anchored at the entry program counter.
    AotCompileFailure { pc: u32, stage: BuildStage },
    /// The host has no known object format.
    UnsupportedPlatform,
    /// The loaded library does not expose the entry symbol.
    NoEntryPoint,
    /// Execution was asked for before anything was compiled.
    NoCompiledCode,
    /// A segment without instructions, or one that does not continue the chain.
    SegmentInvariantViolated,
}

impl BuildStage {
    /// The name of the stage in messages.
    pub fn name(&self) -> (name: &'static str)
        ensures
            name@ == match *self {
                BuildStage::Assemble => "assemble"@,
                BuildStage::Compile => "compile"@,
                BuildStage::Link => "link"@,
                BuildStage::Load => "load"@,
            },
    {
        match self {
            BuildStage::Assemble => "assemble",
            BuildStage::Compile => "compile",
            BuildStage::Link => "link",
            BuildStage::Load => "load",
        }
    }
}

impl BuildStage {
    /// What is said of a failure of the stage.
    pub open spec fn spec_failure_message(self) -> Seq<char> {
        match self {
            BuildStage::Assemble => "NASM compilation failed"@,
            BuildStage::Compile => "Handler compilation failed"@,
            BuildStage::Link => "Linking failed"@,
            BuildStage::Load => "Loading the library failed"@,
        }
    }

    /// What is said of a failure of the stage.
    pub fn failure_message(&self) -> (message: &'static str)
        ensures
            message@ == self.spec_failure_message(),
    {
        match self {
            BuildStage::Assemble => "NASM compilation failed",
            BuildStage::Compile => "Handler compilation failed",
            BuildStage::Link => "Linking failed",
            BuildStage::Load => "Loading the library failed",
        }
    }
}

impl AotError {
    /// The error in words.
    pub open spec fn spec_message(self) -> Seq<char> {
        match self {
            AotError::InvalidInstruction(pc) => "AOT compilation failed: invalid instruction at pc "@
                + dec(pc as nat),
            AotError::AotCompileFailure { pc, stage } => stage.spec_failure_message(),
            AotError::UnsupportedPlatform => "Unsupported platform for AOT compilation"@,
            AotError::NoEntryPoint => "Failed to get AOT entry point"@,
            AotError::NoCompiledCode => "No compiled code available"@,
            AotError::SegmentInvariantViolated => "Segment should contain at least one cycle"@,
        }
    }

    /// The error in words.
    pub fn message(&self) -> (message: String)
        ensures
            message@ == self.spec_message(),
    {
        match self {
            AotError::InvalidInstruction(pc) => {
                let mut message = String::from_str(
                    "AOT compilation failed: invalid instruction at pc ",
                );
                push_dec(&mut message, *pc as u64);
                message
            },
            AotError::AotCompileFailure { pc, stage } => String::from_str(stage.failure_message()),
            AotError::UnsupportedPlatform => String::from_str(
                "Unsupported platform for AOT compilation",
            ),
            AotError::NoEntryPoint => String::from_str("Failed to get AOT entry point"),
            AotError::NoCompiledCode => String::from_str("No compiled code available"),
            AotError::SegmentInvariantViolated => String::from_str(
                "Segment should contain at least one cycle",
            ),
        }
    }
}

} // verus!
