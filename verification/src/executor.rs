//! The capability by which an executor of guest instructions emits host assembly.

use vstd::prelude::*;
use crate::error::AotError;
use crate::instruction::Instruction;

verus! {

/// What an emitter answers, with the text taken as a sequence of characters.
pub open spec fn emitted_view(emitted: Result<Option<String>, AotError>) -> Result<
    Option<Seq<char>>,
    AotError,
> {
    match emitted {
        Ok(Some(text)) => Ok(Some(text@)),
        Ok(None) => Ok(None),
        Err(error) => Err(error),
    }
}

/// An executor that may translate its instructions ahead of time.
///
/// For an instruction it answers with the fragment of host assembly that carries
/// the instruction out on the register buffer, with `None` when the opcode is not
/// one of its own, or with an error when the opcode is its own and the operand
/// format is not. A fragment leaves program counter and instruction count alone;
/// the compiler writes that housekeeping around it.
pub trait AotExecutor {
    /// The answer of the executor as a function of program counter and instruction.
    spec fn spec_assembly(&self, pc: u32, inst: Instruction) -> Result<Option<Seq<char>>, AotError>;

    fn generate_aot_assembly(&self, pc: u32, inst: &Instruction) -> (emitted: Result<
        Option<String>,
        AotError,
    >)
        ensures
            emitted_view(emitted) == self.spec_assembly(pc, *inst),
    ;
}

} // verus!
