//! The guest register file as the generated code sees it.
//!
//! The guest keeps its thirty-two registers in the register address space, as
//! little-endian words of four bytes. The generated code works on a buffer of its
//! own and exchanges the two at the boundaries: the buffer is filled from guest
//! memory before emitted code runs, and written back before the handler looks at
//! the state. Register zero always reads zero, and nothing is ever written to it.

use vstd::prelude::*;
use crate::instruction::RV32_REGISTER_AS;
use crate::memory::{
    le_bytes, le_word, lemma_le_round_trip, lemma_with_word_at, with_word_at, word_at,
    AotExecState, GuestMemory, REGISTER_FILE_BYTES,
};

verus! {

/// The registers that the bytes of a register address space spell: thirty-two
/// words, of which the first reads zero whatever its bytes are.
pub open spec fn guest_registers(bytes: Seq<u8>) -> Seq<u32> {
    Seq::new(
        32,
        |i: int|
            if i == 0 {
                0u32
            } else {
                word_at(bytes, 4 * i)
            },
    )
}

/// A register buffer as it is written to guest memory: register zero is left out.
pub open spec fn without_zero_register(buffer: Seq<u32>) -> Seq<u32> {
    Seq::new(
        32,
        |i: int|
            if i == 0 {
                0u32
            } else {
                buffer[i]
            },
    )
}

/// Access to the guest registers of an execution state.
pub trait AotRegisterOps {
    /// Whether the state holds a register file.
    spec fn has_registers(&self) -> bool;

    /// The thirty-two registers as the guest reads them.
    spec fn registers(&self) -> Seq<u32>;

    /// There are thirty-two registers, and the first reads zero.
    proof fn lemma_registers(&self)
        requires
            self.has_registers(),
        ensures
            self.registers().len() == 32,
            self.registers()[0] == 0,
    ;

    /// Reads one register.
    fn read_register(&self, reg: u8) -> (value: u32)
        requires
            self.has_registers(),
            reg < 32,
        ensures
            value == self.registers()[reg as int],
    ;

    /// Writes one register; a write to register zero changes nothing.
    fn write_register(&mut self, reg: u8, value: u32)
        requires
            old(self).has_registers(),
            reg < 32,
        ensures
            final(self).has_registers(),
            final(self).registers() == if reg == 0 {
                old(self).registers()
            } else {
                old(self).registers().update(reg as int, value)
            },
    ;

    /// Copies all registers into the buffer; slot zero is set to zero.
    fn read_all_registers(&self, buffer: &mut [u32; 32])
        requires
            self.has_registers(),
        ensures
            final(buffer)@ == self.registers(),
    ;

    /// Copies the buffer into the registers one to thirty-one; register zero is skipped.
    fn write_all_registers(&mut self, buffer: &[u32; 32])
        requires
            old(self).has_registers(),
        ensures
            final(self).has_registers(),
            final(self).registers() == without_zero_register(buffer@),
    ;
}

impl AotExecState {
    /// The bytes of the register address space.
    pub open spec fn register_bytes(&self) -> Seq<u8> {
        self.vm_state.memory.space(RV32_REGISTER_AS as int)
    }

    /// Everything but guest memory is the same in both states, guest memory has
    /// the same address spaces, and all but the register address space hold the same.
    pub open spec fn same_but_registers(&self, other: &AotExecState) -> bool {
        &&& self.vm_state.instret == other.vm_state.instret
        &&& self.vm_state.pc == other.vm_state.pc
        &&& self.vm_state.input_stream == other.vm_state.input_stream
        &&& self.vm_state.output_stream == other.vm_state.output_stream
        &&& self.vm_state.seed == other.vm_state.seed
        &&& self.vm_state.num_public_values == other.vm_state.num_public_values
        &&& self.vm_state.memory.mem@.len() == other.vm_state.memory.mem@.len()
        &&& forall|s: int|
            0 <= s < self.vm_state.memory.mem@.len() && s != RV32_REGISTER_AS
                ==> self.vm_state.memory.mem@[s] == other.vm_state.memory.mem@[s]
        &&& self.register_bytes().len() == other.register_bytes().len()
        &&& forall|i: int|
            REGISTER_FILE_BYTES <= i < self.register_bytes().len() ==> self.register_bytes()[i]
                == other.register_bytes()[i]
    }
}

impl AotRegisterOps for AotExecState {
    open spec fn has_registers(&self) -> bool {
        self.vm_state.memory.has_registers()
    }

    open spec fn registers(&self) -> Seq<u32> {
        guest_registers(self.register_bytes())
    }

    proof fn lemma_registers(&self) {
    }

    fn read_register(&self, reg: u8) -> (value: u32) {
        if reg == 0 {
            return 0;
        }
        let bytes = self.vm_state.memory.read(RV32_REGISTER_AS, 4 * (reg as u32));
        let b0: u32 = bytes[0] as u32;
        let b1: u32 = bytes[1] as u32;
        let b2: u32 = bytes[2] as u32;
        let b3: u32 = bytes[3] as u32;
        b0 + 0x100 * b1 + 0x1_0000 * b2 + 0x100_0000 * b3
    }

    fn write_register(&mut self, reg: u8, value: u32)
        ensures
            final(self).same_but_registers(old(self)),
            final(self).register_bytes() == if reg == 0 {
                old(self).register_bytes()
            } else {
                with_word_at(old(self).register_bytes(), 4 * reg, value)
            },
    {
        if reg == 0 {
            return ;
        }
        let bytes: [u8; 4] = [
            (value % 0x100) as u8,
            (value / 0x100 % 0x100) as u8,
            (value / 0x1_0000 % 0x100) as u8,
            (value / 0x100_0000) as u8,
        ];
        assert(bytes@ =~= le_bytes(value));
        self.vm_state.memory.write(RV32_REGISTER_AS, 4 * (reg as u32), bytes);
        proof {
            let before = old(self).register_bytes();
            let after = self.register_bytes();
            assert(after == with_word_at(before, 4 * reg, value));
            assert forall|i: int| 0 <= i < 32 implies #[trigger] guest_registers(after)[i]
                == old(self).registers().update(reg as int, value)[i] by {
                if i == reg {
                    lemma_with_word_at(before, 4 * reg, value, 0);
                } else if i != 0 {
                    lemma_with_word_at(before, 4 * reg, value, 4 * i);
                }
            }
            assert(self.registers() =~= old(self).registers().update(reg as int, value));
        }
    }

    fn read_all_registers(&self, buffer: &mut [u32; 32]) {
        buffer[0] = 0;
        let mut i: usize = 1;
        while i < 32
            invariant
                1 <= i <= 32,
                self.has_registers(),
                forall|k: int| 0 <= k < i ==> buffer@[k] == self.registers()[k],
            decreases 32 - i,
        {
            buffer[i] = self.read_register(i as u8);
            i = i + 1;
        }
        assert(buffer@ =~= self.registers());
    }

    fn write_all_registers(&mut self, buffer: &[u32; 32])
        ensures
            final(self).same_but_registers(old(self)),
            final(self).register_bytes().subrange(0, 4) == old(self).register_bytes().subrange(
                0,
                4,
            ),
    {
        let mut i: usize = 1;
        while i < 32
            invariant
                1 <= i <= 32,
                self.has_registers(),
                self.same_but_registers(old(self)),
                self.register_bytes().subrange(0, 4) == old(self).register_bytes().subrange(0, 4),
                forall|k: int| 1 <= k < i ==> self.registers()[k] == buffer@[k],
            decreases 32 - i,
        {
            let ghost before = self.register_bytes();
            self.write_register(i as u8, buffer[i]);
            proof {
                assert(self.register_bytes().subrange(0, 4) =~= before.subrange(0, 4));
            }
            i = i + 1;
        }
        assert(self.registers() =~= without_zero_register(buffer@));
    }
}

/// Writes the register buffer of the generated code back to guest memory.
/// Register zero is skipped: its bytes in guest memory stay as they are.
pub fn openvm_sync_registers_to_memory(state: &mut AotExecState, register_buffer: &[u32; 32])
    requires
        old(state).has_registers(),
    ensures
        final(state).has_registers(),
        final(state).registers() == without_zero_register(register_buffer@),
        final(state).same_but_registers(old(state)),
        final(state).register_bytes().subrange(0, 4) == old(state).register_bytes().subrange(
            0,
            4,
        ),
{
    state.write_all_registers(register_buffer);
}

/// Fills the register buffer of the generated code from guest memory.
/// Slot zero is set to zero, whatever guest memory holds there.
pub fn openvm_sync_registers_from_memory(state: &AotExecState, register_buffer: &mut [u32; 32])
    requires
        state.has_registers(),
    ensures
        final(register_buffer)@ == state.registers(),
        final(register_buffer)@[0] == 0,
{
    state.read_all_registers(register_buffer);
}

} // verus!
