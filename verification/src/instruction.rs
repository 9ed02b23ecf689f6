//! Guest programs: decoded instructions, opcodes and address spaces.

use vstd::prelude::*;

verus! {

/// The pseudo address space that marks an operand as an immediate value.
pub const RV32_IMM_AS: u32 = 0;

/// The address space that holds the thirty-two guest registers.
pub const RV32_REGISTER_AS: u32 = 1;

/// The address space of ordinary guest data.
pub const RV32_MEMORY_AS: u32 = 2;

/// The step by which the program counter advances from one instruction to the next.
pub const DEFAULT_PC_STEP: u32 = 4;

/// The first global opcode of the base ALU class.
pub const BASE_ALU_CLASS_OFFSET: usize = 0x200;

/// The value a handler stores in the pc cell to end the execution.
pub const TERMINATE_PC: u32 = 0xFFFF_FFFF;

/// A global opcode identifier.
#[derive(Clone, Copy, Debug, PartialEq, Eq, Structural)]
pub struct VmOpcode(pub usize);

impl VmOpcode {
    pub fn from_usize(value: usize) -> (opcode: Self)
        ensures
            opcode == VmOpcode(value),
    {
        VmOpcode(value)
    }

    pub fn as_usize(&self) -> (value: usize)
        ensures
            value == self.0,
    {
        self.0
    }

    /// The index of the opcode within the class that starts at `offset`.
    pub fn local_opcode_idx(&self, offset: usize) -> (index: usize)
        requires
            self.0 >= offset,
        ensures
            index == self.0 - offset,
    {
        self.0 - offset
    }
}

/// The opcodes of the base ALU class, in the order of their local indices.
#[allow(clippy::upper_case_acronyms)]
#[derive(Clone, Copy, Debug, PartialEq, Eq, Structural)]
pub enum BaseAluOpcode {
    ADD,
    SUB,
    XOR,
    OR,
    AND,
}

impl BaseAluOpcode {
    /// The index of the opcode within its class.
    pub open spec fn spec_local_usize(self) -> usize {
        match self {
            BaseAluOpcode::ADD => 0,
            BaseAluOpcode::SUB => 1,
            BaseAluOpcode::XOR => 2,
            BaseAluOpcode::OR => 3,
            BaseAluOpcode::AND => 4,
        }
    }

    /// The opcode with the local index `value`, if there is one.
    pub open spec fn spec_from_usize(value: usize) -> Option<BaseAluOpcode> {
        if value == 0 {
            Some(BaseAluOpcode::ADD)
        } else if value == 1 {
            Some(BaseAluOpcode::SUB)
        } else if value == 2 {
            Some(BaseAluOpcode::XOR)
        } else if value == 3 {
            Some(BaseAluOpcode::OR)
        } else if value == 4 {
            Some(BaseAluOpcode::AND)
        } else {
            None
        }
    }

    pub fn local_usize(self) -> (index: usize)
        ensures
            index == self.spec_local_usize(),
            Self::spec_from_usize(index) == Some(self),
    {
        match self {
            BaseAluOpcode::ADD => 0,
            BaseAluOpcode::SUB => 1,
            BaseAluOpcode::XOR => 2,
            BaseAluOpcode::OR => 3,
            BaseAluOpcode::AND => 4,
        }
    }

    pub fn from_usize(value: usize) -> (opcode: Option<Self>)
        ensures
            opcode == Self::spec_from_usize(value),
            opcode matches Some(op) ==> op.spec_local_usize() == value,
    {
        if value == 0 {
            Some(BaseAluOpcode::ADD)
        } else if value == 1 {
            Some(BaseAluOpcode::SUB)
        } else if value == 2 {
            Some(BaseAluOpcode::XOR)
        } else if value == 3 {
            Some(BaseAluOpcode::OR)
        } else if value == 4 {
            Some(BaseAluOpcode::AND)
        } else {
            None
        }
    }

    /// The global opcode: the class offset plus the local index.
    pub fn global_opcode(self) -> (opcode: VmOpcode)
        ensures
            opcode.0 == BASE_ALU_CLASS_OFFSET + self.spec_local_usize(),
    {
        VmOpcode(BASE_ALU_CLASS_OFFSET + self.local_usize())
    }
}

/// A decoded instruction: an opcode and seven operand fields, each held as the
/// canonical value of its field element. What a field means depends on the opcode.
#[derive(Clone, Copy, Debug, PartialEq, Eq, Structural)]
pub struct Instruction {
    pub opcode: VmOpcode,
    pub a: u32,
    pub b: u32,
    pub c: u32,
    pub d: u32,
    pub e: u32,
    pub f: u32,
    pub g: u32,
}

/// A guest program: instruction slots, of which some may be undefined, laid out
/// from `pc_base` in steps of four.
#[derive(Debug)]
pub struct Program {
    pub pc_base: u32,
    pub instructions: Vec<Option<Instruction>>,
}

impl Program {
    /// Every slot, and the end of the program, has a program counter of 32 bits.
    pub open spec fn wf(&self) -> bool {
        self.pc_base + DEFAULT_PC_STEP * self.instructions@.len() <= u32::MAX
    }

    /// The program counter of slot `index`.
    pub open spec fn spec_pc_of(&self, index: int) -> int {
        self.pc_base + DEFAULT_PC_STEP * index
    }

    /// The program counter just past the last slot.
    pub open spec fn spec_end_pc(&self) -> int {
        self.pc_base + DEFAULT_PC_STEP * self.instructions@.len()
    }

    /// Whether `pc` is the program counter of a defined instruction.
    pub open spec fn spec_has_instruction_at(&self, pc: u32) -> bool {
        exists|index: int|
            0 <= index < self.instructions@.len() && self.spec_pc_of(index) == pc
                && (#[trigger] self.instructions@[index]) is Some
    }

    /// Number of defined instructions among the first `n` slots.
    pub open spec fn spec_defined_upto(&self, n: int) -> nat
        decreases n,
    {
        if n <= 0 {
            0
        } else if self.instructions@[n - 1] is Some {
            self.spec_defined_upto(n - 1) + 1
        } else {
            self.spec_defined_upto(n - 1)
        }
    }

    /// A program of defined instructions only, laid out from zero.
    pub fn from_instructions(instructions: &[Instruction]) -> (program: Self)
        requires
            DEFAULT_PC_STEP * instructions@.len() <= u32::MAX,
        ensures
            program.wf(),
            program.pc_base == 0,
            program.instructions@.len() == instructions@.len(),
            forall|i: int|
                0 <= i < instructions@.len() ==> program.instructions@[i] == Some(
                    instructions@[i],
                ),
    {
        let mut slots: Vec<Option<Instruction>> = Vec::new();
        let mut i: usize = 0;
        while i < instructions.len()
            invariant
                i <= instructions@.len(),
                slots@.len() == i,
                forall|j: int| 0 <= j < i ==> slots@[j] == Some(instructions@[j]),
            decreases instructions@.len() - i,
        {
            slots.push(Some(instructions[i]));
            i = i + 1;
        }
        Program { pc_base: 0, instructions: slots }
    }

    /// Number of instruction slots.
    pub fn len(&self) -> (n: usize)
        ensures
            n == self.instructions@.len(),
    {
        self.instructions.len()
    }

    pub fn is_empty(&self) -> (empty: bool)
        ensures
            empty == (self.instructions@.len() == 0),
    {
        self.instructions.len() == 0
    }

    /// Number of slots that hold an instruction.
    pub fn num_defined_instructions(&self) -> (n: usize)
        ensures
            n == self.spec_defined_upto(self.instructions@.len() as int),
    {
        let mut count: usize = 0;
        let mut i: usize = 0;
        while i < self.instructions.len()
            invariant
                i <= self.instructions@.len(),
                count == self.spec_defined_upto(i as int),
                count <= i,
            decreases self.instructions@.len() - i,
        {
            if self.instructions[i].is_some() {
                count = count + 1;
            }
            i = i + 1;
        }
        count
    }

    /// The program counter of slot `index`.
    pub fn pc_of(&self, index: usize) -> (pc: u32)
        requires
            self.wf(),
            index <= self.instructions@.len(),
        ensures
            pc == self.spec_pc_of(index as int),
    {
        assert(DEFAULT_PC_STEP * index <= DEFAULT_PC_STEP * self.instructions@.len())
            by (nonlinear_arith)
            requires
                index <= self.instructions@.len(),
        ;
        self.pc_base + DEFAULT_PC_STEP * (index as u32)
    }

    /// The program counter just past the last slot.
    pub fn end_pc(&self) -> (pc: u32)
        requires
            self.wf(),
        ensures
            pc == self.spec_end_pc(),
    {
        self.pc_of(self.instructions.len())
    }

    /// Whether `pc` is the program counter of a defined instruction.
    pub fn has_instruction_at(&self, pc: u32) -> (found: bool)
        requires
            self.wf(),
        ensures
            found == self.spec_has_instruction_at(pc),
    {
        if pc < self.pc_base {
            return false;
        }
        let offset = pc - self.pc_base;
        if offset % DEFAULT_PC_STEP != 0 {
            return false;
        }
        let index = (offset / DEFAULT_PC_STEP) as usize;
        if index >= self.instructions.len() {
            return false;
        }
        let found = self.instructions[index].is_some();
        proof {
            if found {
                assert(self.spec_pc_of(index as int) == pc);
                assert(self.instructions@[index as int] is Some);
            }
        }
        found
    }
}

/// An executable: a program and the program counter at which it is entered.
#[derive(Debug)]
pub struct VmExe {
    pub program: Program,
    pub pc_start: u32,
}

impl VmExe {
    pub fn new(program: Program, pc_start: u32) -> (exe: Self)
        ensures
            exe.program == program,
            exe.pc_start == pc_start,
    {
        VmExe { program, pc_start }
    }
}

} // verus!
