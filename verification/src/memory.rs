//! Guest memory and the execution state that the generated code works on.

use vstd::prelude::*;
use crate::instruction::RV32_REGISTER_AS;

verus! {

/// Number of bytes of a guest register.
pub const REGISTER_BYTES: usize = 4;

/// Number of bytes that the guest registers take in their address space.
pub const REGISTER_FILE_BYTES: usize = 128;

/// The word that four bytes spell in little-endian order.
pub open spec fn le_word(b0: u8, b1: u8, b2: u8, b3: u8) -> u32 {
    (b0 + 0x100 * b1 + 0x1_0000 * b2 + 0x100_0000 * b3) as u32
}

/// The little-endian bytes of a word.
pub open spec fn le_bytes(word: u32) -> Seq<u8> {
    seq![
        (word % 0x100) as u8,
        (word / 0x100 % 0x100) as u8,
        (word / 0x1_0000 % 0x100) as u8,
        (word / 0x100_0000) as u8,
    ]
}

/// The little-endian word that starts at `offset`.
pub open spec fn word_at(bytes: Seq<u8>, offset: int) -> u32 {
    le_word(bytes[offset], bytes[offset + 1], bytes[offset + 2], bytes[offset + 3])
}

/// The bytes with the little-endian bytes of `word` written from `offset` on.
pub open spec fn with_word_at(bytes: Seq<u8>, offset: int, word: u32) -> Seq<u8> {
    bytes.update(offset, le_bytes(word)[0]).update(offset + 1, le_bytes(word)[1]).update(
        offset + 2,
        le_bytes(word)[2],
    ).update(offset + 3, le_bytes(word)[3])
}

/// Reading the bytes of a word back gives the word.
pub proof fn lemma_le_round_trip(word: u32)
    ensures
        le_word(le_bytes(word)[0], le_bytes(word)[1], le_bytes(word)[2], le_bytes(word)[3])
            == word,
{
}

/// A word written at an offset is read back there; words at other aligned
/// offsets, and the length, stay as they were.
pub proof fn lemma_with_word_at(bytes: Seq<u8>, offset: int, word: u32, other: int)
    requires
        0 <= offset,
        offset + 4 <= bytes.len(),
        0 <= other,
        other + 4 <= bytes.len(),
        other + 4 <= offset || offset + 4 <= other,
    ensures
        with_word_at(bytes, offset, word).len() == bytes.len(),
        word_at(with_word_at(bytes, offset, word), offset) == word,
        word_at(with_word_at(bytes, offset, word), other) == word_at(bytes, other),
{
    lemma_le_round_trip(word);
}

/// Guest memory: one contiguous region of bytes per address space.
#[derive(Debug)]
pub struct GuestMemory {
    pub mem: Vec<Vec<u8>>,
}

impl GuestMemory {
    /// The bytes of an address space.
    pub open spec fn space(&self, addr_space: int) -> Seq<u8> {
        self.mem@[addr_space]@
    }

    /// Whether `len` bytes from `ptr` on lie in the address space.
    pub open spec fn in_bounds(&self, addr_space: u32, ptr: u32, len: int) -> bool {
        addr_space < self.mem@.len() && ptr + len <= self.space(addr_space as int).len()
    }

    /// The memory has a register address space that holds the thirty-two registers.
    pub open spec fn has_registers(&self) -> bool {
        self.in_bounds(RV32_REGISTER_AS, 0, REGISTER_FILE_BYTES as int)
    }

    /// Memory with the given number of address spaces, each of `size` zero bytes.
    pub fn new(num_spaces: usize, size: usize) -> (memory: Self)
        ensures
            memory.mem@.len() == num_spaces,
            forall|s: int|
                0 <= s < num_spaces ==> #[trigger] memory.space(s) == Seq::new(
                    size as nat,
                    |i: int| 0u8,
                ),
    {
        let mut mem: Vec<Vec<u8>> = Vec::new();
        let mut s: usize = 0;
        while s < num_spaces
            invariant
                s <= num_spaces,
                mem@.len() == s,
                forall|k: int|
                    0 <= k < s ==> (#[trigger] mem@[k])@ == Seq::new(size as nat, |i: int| 0u8),
            decreases num_spaces - s,
        {
            let mut region: Vec<u8> = Vec::new();
            let mut i: usize = 0;
            while i < size
                invariant
                    i <= size,
                    region@ == Seq::new(i as nat, |k: int| 0u8),
                decreases size - i,
            {
                region.push(0u8);
                i = i + 1;
                assert(region@ =~= Seq::new(i as nat, |k: int| 0u8));
            }
            mem.push(region);
            s = s + 1;
        }
        GuestMemory { mem }
    }

    /// Reads four bytes.
    pub fn read(&self, addr_space: u32, ptr: u32) -> (bytes: [u8; 4])
        requires
            self.in_bounds(addr_space, ptr, 4),
        ensures
            bytes@ == self.space(addr_space as int).subrange(ptr as int, ptr + 4),
    {
        let region = &self.mem[addr_space as usize];
        let at = ptr as usize;
        assert(at + 4 <= region.len());
        let bytes = [region[at], region[at + 1], region[at + 2], region[at + 3]];
        assert(bytes@ =~= self.space(addr_space as int).subrange(ptr as int, ptr + 4));
        bytes
    }

    /// Writes four bytes; everything else stays as it was.
    pub fn write(&mut self, addr_space: u32, ptr: u32, bytes: [u8; 4])
        requires
            old(self).in_bounds(addr_space, ptr, 4),
        ensures
            final(self).mem@.len() == old(self).mem@.len(),
            forall|s: int|
                0 <= s < old(self).mem@.len() && s != addr_space ==> final(self).mem@[s] == old(
                    self,
                ).mem@[s],
            final(self).space(addr_space as int) == old(self).space(addr_space as int).update(
                ptr as int,
                bytes@[0],
            ).update(ptr + 1, bytes@[1]).update(ptr + 2, bytes@[2]).update(ptr + 3, bytes@[3]),
    {
        let at = ptr as usize;
        let region = &mut self.mem[addr_space as usize];
        assert(at + 4 <= region.len());
        region[at] = bytes[0];
        region[at + 1] = bytes[1];
        region[at + 2] = bytes[2];
        region[at + 3] = bytes[3];
    }
}

/// The state of the virtual machine: the count of retired instructions, the
/// program counter, guest memory, the input and output streams, the seed and
/// the number of slots for public values.
#[derive(Debug)]
pub struct VmState {
    pub instret: u64,
    pub pc: u32,
    pub memory: GuestMemory,
    pub input_stream: Vec<Vec<u32>>,
    pub output_stream: Vec<u32>,
    pub seed: u64,
    pub num_public_values: usize,
}

impl VmState {
    /// A state with empty streams.
    pub fn new_with_defaults(
        instret: u64,
        pc: u32,
        memory: GuestMemory,
        seed: u64,
        num_public_values: usize,
    ) -> (state: Self)
        ensures
            state.instret == instret,
            state.pc == pc,
            state.memory == memory,
            state.input_stream@.len() == 0,
            state.output_stream@.len() == 0,
            state.seed == seed,
            state.num_public_values == num_public_values,
    {
        VmState {
            instret,
            pc,
            memory,
            input_stream: Vec::new(),
            output_stream: Vec::new(),
            seed,
            num_public_values,
        }
    }
}

/// The execution state that the entry point and the handler are handed.
#[derive(Debug)]
pub struct AotExecState {
    pub vm_state: VmState,
}

impl AotExecState {
    pub fn new(vm_state: VmState) -> (state: Self)
        ensures
            state.vm_state == vm_state,
    {
        AotExecState { vm_state }
    }
}

} // verus!
