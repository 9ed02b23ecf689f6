//! The block functions and digests of SHA-256, SHA-384 and SHA-512, on bytes.
//!
//! The hashing itself is done by the `sha2` crate. This module fixes how a hasher
//! state of bytes is read as words, little-endian word by word, hands the words
//! and a block to the block function, and writes the words back.

use vstd::prelude::*;
use crate::instruction::RV32_MEMORY_AS;
use crate::memory::{le_bytes, word_at, GuestMemory};

verus! {

/// The state after the SHA-256 block function has taken in one block of 64 bytes.
pub uninterp spec fn sha256_block(state: Seq<u32>, block: Seq<u8>) -> Seq<u32>;

/// The state after the SHA-512 block function has taken in one block of 128 bytes.
pub uninterp spec fn sha512_block(state: Seq<u64>, block: Seq<u8>) -> Seq<u64>;

/// The SHA-256 digest of a message.
pub uninterp spec fn sha256_digest(message: Seq<u8>) -> Seq<u8>;

/// The SHA-384 digest of a message.
pub uninterp spec fn sha384_digest(message: Seq<u8>) -> Seq<u8>;

/// The SHA-512 digest of a message.
pub uninterp spec fn sha512_digest(message: Seq<u8>) -> Seq<u8>;

/// Calls `sha2::compress256` on one block. The contract gives the new state the
/// name `sha256_block` of the old state and the block: the function reads
/// nothing else.
#[verifier::external_body]
fn compress256_block(state: &mut [u32; 8], block: &[u8; 64])
    ensures
        final(state)@ == sha256_block(old(state)@, block@),
{
    ::sha2::compress256(
        state,
        &[::sha2::digest::generic_array::GenericArray::clone_from_slice(block)],
    );
}

/// Calls `sha2::compress512` on one block. The contract gives the new state the
/// name `sha512_block` of the old state and the block: the function reads
/// nothing else.
#[verifier::external_body]
fn compress512_block(state: &mut [u64; 8], block: &[u8; 128])
    ensures
        final(state)@ == sha512_block(old(state)@, block@),
{
    ::sha2::compress512(
        state,
        &[::sha2::digest::generic_array::GenericArray::clone_from_slice(block)],
    );
}

/// Calls `sha2::Sha256::digest`. The contract names the digest of the message
/// and states its length, the output size of the hasher: 32 bytes.
#[verifier::external_body]
fn digest256(message: &[u8]) -> (digest: Vec<u8>)
    ensures
        digest@ == sha256_digest(message@),
        digest@.len() == 32,
{
    <::sha2::Sha256 as ::sha2::Digest>::digest(message).to_vec()
}

/// Calls `sha2::Sha384::digest`. The contract names the digest of the message
/// and states its length, the output size of the hasher: 48 bytes.
#[verifier::external_body]
fn digest384(message: &[u8]) -> (digest: Vec<u8>)
    ensures
        digest@ == sha384_digest(message@),
        digest@.len() == 48,
{
    <::sha2::Sha384 as ::sha2::Digest>::digest(message).to_vec()
}

/// Calls `sha2::Sha512::digest`. The contract names the digest of the message
/// and states its length, the output size of the hasher: 64 bytes.
#[verifier::external_body]
fn digest512(message: &[u8]) -> (digest: Vec<u8>)
    ensures
        digest@ == sha512_digest(message@),
        digest@.len() == 64,
{
    <::sha2::Sha512 as ::sha2::Digest>::digest(message).to_vec()
}

/// The word of eight bytes that starts at `offset`, in little-endian order.
pub open spec fn word64_at(bytes: Seq<u8>, offset: int) -> u64 {
    (bytes[offset] + 0x100 * bytes[offset + 1] + 0x1_0000 * bytes[offset + 2] + 0x100_0000
        * bytes[offset + 3] + 0x1_0000_0000 * bytes[offset + 4] + 0x100_0000_0000 * bytes[offset
        + 5] + 0x1_0000_0000_0000 * bytes[offset + 6] + 0x100_0000_0000_0000 * bytes[offset
        + 7]) as u64
}

/// The little-endian bytes of a word of eight bytes.
pub open spec fn le_bytes64(word: u64) -> Seq<u8> {
    seq![
        (word % 0x100) as u8,
        (word / 0x100 % 0x100) as u8,
        (word / 0x1_0000 % 0x100) as u8,
        (word / 0x100_0000 % 0x100) as u8,
        (word / 0x1_0000_0000 % 0x100) as u8,
        (word / 0x100_0000_0000 % 0x100) as u8,
        (word / 0x1_0000_0000_0000 % 0x100) as u8,
        (word / 0x100_0000_0000_0000) as u8,
    ]
}

/// The bytes read as little-endian words of four bytes.
pub open spec fn words32(bytes: Seq<u8>) -> Seq<u32> {
    Seq::new((bytes.len() / 4) as nat, |i: int| word_at(bytes, 4 * i))
}

/// The words written as little-endian bytes, four per word.
pub open spec fn bytes_of_words32(words: Seq<u32>) -> Seq<u8> {
    Seq::new(4 * words.len(), |i: int| le_bytes(words[i / 4])[i % 4])
}

/// The bytes read as little-endian words of eight bytes.
pub open spec fn words64(bytes: Seq<u8>) -> Seq<u64> {
    Seq::new((bytes.len() / 8) as nat, |i: int| word64_at(bytes, 8 * i))
}

/// The words written as little-endian bytes, eight per word.
pub open spec fn bytes_of_words64(words: Seq<u64>) -> Seq<u8> {
    Seq::new(8 * words.len(), |i: int| le_bytes64(words[i / 8])[i % 8])
}

/// The state of 32 bytes after one block of SHA-256.
pub open spec fn sha256_compress_bytes(state: Seq<u8>, block: Seq<u8>) -> Seq<u8> {
    bytes_of_words32(sha256_block(words32(state), block))
}

/// The state of 64 bytes after one block of SHA-512.
pub open spec fn sha512_compress_bytes(state: Seq<u8>, block: Seq<u8>) -> Seq<u8> {
    bytes_of_words64(sha512_block(words64(state), block))
}

/// Applies the SHA-256 block function to a state of 32 bytes and a block of 64 bytes.
pub fn sha256_compress(state: &mut [u8; 32], block: &[u8; 64])
    ensures
        final(state)@ == sha256_compress_bytes(old(state)@, block@),
{
    let mut words: [u32; 8] = [0;8];
    let mut i: usize = 0;
    while i < 8
        invariant
            i <= 8,
            state@ == old(state)@,
            forall|k: int| 0 <= k < i ==> words@[k] == word_at(state@, 4 * k),
        decreases 8 - i,
    {
        let b0: u32 = state[4 * i] as u32;
        let b1: u32 = state[4 * i + 1] as u32;
        let b2: u32 = state[4 * i + 2] as u32;
        let b3: u32 = state[4 * i + 3] as u32;
        words[i] = b0 + 0x100 * b1 + 0x1_0000 * b2 + 0x100_0000 * b3;
        i = i + 1;
    }
    assert(words@ =~= words32(old(state)@));
    compress256_block(&mut words, block);
    let mut i: usize = 0;
    while i < 8
        invariant
            i <= 8,
            forall|k: int| 0 <= k < 4 * i ==> state@[k] == le_bytes(words@[k / 4])[k % 4],
        decreases 8 - i,
    {
        let word = words[i];
        state[4 * i] = (word % 0x100) as u8;
        state[4 * i + 1] = (word / 0x100 % 0x100) as u8;
        state[4 * i + 2] = (word / 0x1_0000 % 0x100) as u8;
        state[4 * i + 3] = (word / 0x100_0000) as u8;
        i = i + 1;
    }
    assert(state@ =~= bytes_of_words32(words@));
}

/// Applies the SHA-512 block function to a state of 64 bytes and a block of 128 bytes.
pub fn sha512_compress(state: &mut [u8; 64], block: &[u8; 128])
    ensures
        final(state)@ == sha512_compress_bytes(old(state)@, block@),
{
    let mut words: [u64; 8] = [0;8];
    let mut i: usize = 0;
    while i < 8
        invariant
            i <= 8,
            state@ == old(state)@,
            forall|k: int| 0 <= k < i ==> words@[k] == word64_at(state@, 8 * k),
        decreases 8 - i,
    {
        let b0: u64 = state[8 * i] as u64;
        let b1: u64 = state[8 * i + 1] as u64;
        let b2: u64 = state[8 * i + 2] as u64;
        let b3: u64 = state[8 * i + 3] as u64;
        let b4: u64 = state[8 * i + 4] as u64;
        let b5: u64 = state[8 * i + 5] as u64;
        let b6: u64 = state[8 * i + 6] as u64;
        let b7: u64 = state[8 * i + 7] as u64;
        words[i] = b0 + 0x100 * b1 + 0x1_0000 * b2 + 0x100_0000 * b3 + 0x1_0000_0000 * b4
            + 0x100_0000_0000 * b5 + 0x1_0000_0000_0000 * b6 + 0x100_0000_0000_0000 * b7;
        i = i + 1;
    }
    assert(words@ =~= words64(old(state)@));
    compress512_block(&mut words, block);
    let mut i: usize = 0;
    while i < 8
        invariant
            i <= 8,
            forall|k: int| 0 <= k < 8 * i ==> state@[k] == le_bytes64(words@[k / 8])[k % 8],
        decreases 8 - i,
    {
        let word = words[i];
        state[8 * i] = (word % 0x100) as u8;
        state[8 * i + 1] = (word / 0x100 % 0x100) as u8;
        state[8 * i + 2] = (word / 0x1_0000 % 0x100) as u8;
        state[8 * i + 3] = (word / 0x100_0000 % 0x100) as u8;
        state[8 * i + 4] = (word / 0x1_0000_0000 % 0x100) as u8;
        state[8 * i + 5] = (word / 0x100_0000_0000 % 0x100) as u8;
        state[8 * i + 6] = (word / 0x1_0000_0000_0000 % 0x100) as u8;
        state[8 * i + 7] = (word / 0x100_0000_0000_0000) as u8;
        i = i + 1;
    }
    assert(state@ =~= bytes_of_words64(words@));
}

/// The three variants of SHA-2 that are told apart here.
#[derive(Clone, Copy, Debug, PartialEq, Eq, Structural)]
pub enum Sha2Variant {
    Sha256,
    Sha512,
    Sha384,
}

/// The parameters and functions of one SHA-2 variant.
pub trait Sha2Config {
    /// Number of bytes of the hasher state.
    spec fn spec_state_bytes() -> nat;

    /// Number of bytes of a block.
    spec fn spec_block_bytes() -> nat;

    /// Number of bits in which the padding of a message stores its length.
    spec fn spec_message_length_bits() -> nat;

    /// The state after one block.
    spec fn spec_compress(state: Seq<u8>, input: Seq<u8>) -> Seq<u8>;

    /// The digest of a message.
    spec fn spec_hash(message: Seq<u8>) -> Seq<u8>;

    /// The variant.
    spec fn spec_variant() -> Sha2Variant;

    /// Number of bits in which the padding of a message stores its length.
    fn message_length_bits() -> (bits: usize)
        ensures
            bits == Self::spec_message_length_bits(),
    ;

    /// Number of bits of a block.
    fn block_bits() -> (bits: usize)
        ensures
            bits == 8 * Self::spec_block_bytes(),
    ;

    /// The variant.
    fn variant() -> (variant: Sha2Variant)
        ensures
            variant == Self::spec_variant(),
    ;

    /// Takes one block into the state.
    fn compress(state: &mut [u8], input: &[u8])
        requires
            old(state)@.len() == Self::spec_state_bytes(),
            input@.len() == Self::spec_block_bytes(),
        ensures
            final(state)@ == Self::spec_compress(old(state)@, input@),
    ;

    /// Hashes a message.
    fn hash(message: &[u8]) -> (digest: Vec<u8>)
        ensures
            digest@ == Self::spec_hash(message@),
    ;
}

/// SHA-256.
#[derive(Clone, Copy, Debug)]
pub struct Sha256Config;

/// SHA-512.
#[derive(Clone, Copy, Debug)]
pub struct Sha512Config;

/// SHA-384: the block function of SHA-512 with a digest of its own.
#[derive(Clone, Copy, Debug)]
pub struct Sha384Config;

/// Takes one block of SHA-256 into a state held in a slice.
fn compress256_slices(state: &mut [u8], input: &[u8])
    requires
        old(state)@.len() == 32,
        input@.len() == 64,
    ensures
        final(state)@ == sha256_compress_bytes(old(state)@, input@),
{
    let mut words: [u8; 32] = [0;32];
    let mut block: [u8; 64] = [0;64];
    let mut i: usize = 0;
    while i < 32
        invariant
            i <= 32,
            state@.len() == 32,
            forall|k: int| 0 <= k < i ==> words@[k] == state@[k],
        decreases 32 - i,
    {
        words[i] = state[i];
        i = i + 1;
    }
    let mut i: usize = 0;
    while i < 64
        invariant
            i <= 64,
            input@.len() == 64,
            forall|k: int| 0 <= k < i ==> block@[k] == input@[k],
        decreases 64 - i,
    {
        block[i] = input[i];
        i = i + 1;
    }
    assert(words@ =~= state@);
    assert(block@ =~= input@);
    sha256_compress(&mut words, &block);
    let mut i: usize = 0;
    while i < 32
        invariant
            i <= 32,
            state@.len() == 32,
            forall|k: int| 0 <= k < i ==> state@[k] == words@[k],
        decreases 32 - i,
    {
        state[i] = words[i];
        i = i + 1;
    }
    assert(state@ =~= words@);
}

/// Takes one block of SHA-512 into a state held in a slice.
fn compress512_slices(state: &mut [u8], input: &[u8])
    requires
        old(state)@.len() == 64,
        input@.len() == 128,
    ensures
        final(state)@ == sha512_compress_bytes(old(state)@, input@),
{
    let mut words: [u8; 64] = [0;64];
    let mut block: [u8; 128] = [0;128];
    let mut i: usize = 0;
    while i < 64
        invariant
            i <= 64,
            state@.len() == 64,
            forall|k: int| 0 <= k < i ==> words@[k] == state@[k],
        decreases 64 - i,
    {
        words[i] = state[i];
        i = i + 1;
    }
    let mut i: usize = 0;
    while i < 128
        invariant
            i <= 128,
            input@.len() == 128,
            forall|k: int| 0 <= k < i ==> block@[k] == input@[k],
        decreases 128 - i,
    {
        block[i] = input[i];
        i = i + 1;
    }
    assert(words@ =~= state@);
    assert(block@ =~= input@);
    sha512_compress(&mut words, &block);
    let mut i: usize = 0;
    while i < 64
        invariant
            i <= 64,
            state@.len() == 64,
            forall|k: int| 0 <= k < i ==> state@[k] == words@[k],
        decreases 64 - i,
    {
        state[i] = words[i];
        i = i + 1;
    }
    assert(state@ =~= words@);
}

impl Sha2Config for Sha256Config {
    open spec fn spec_variant() -> Sha2Variant {
        Sha2Variant::Sha256
    }

    fn block_bits() -> (bits: usize) {
        512
    }

    fn variant() -> (variant: Sha2Variant) {
        Sha2Variant::Sha256
    }

    open spec fn spec_state_bytes() -> nat {
        32
    }

    open spec fn spec_block_bytes() -> nat {
        64
    }

    open spec fn spec_message_length_bits() -> nat {
        64
    }

    open spec fn spec_compress(state: Seq<u8>, input: Seq<u8>) -> Seq<u8> {
        sha256_compress_bytes(state, input)
    }

    open spec fn spec_hash(message: Seq<u8>) -> Seq<u8> {
        sha256_digest(message)
    }

    fn message_length_bits() -> (bits: usize) {
        64
    }

    fn compress(state: &mut [u8], input: &[u8]) {
        compress256_slices(state, input);
    }

    fn hash(message: &[u8]) -> (digest: Vec<u8>)
        ensures
            digest@.len() == 32,
    {
        digest256(message)
    }
}

impl Sha2Config for Sha512Config {
    open spec fn spec_variant() -> Sha2Variant {
        Sha2Variant::Sha512
    }

    fn block_bits() -> (bits: usize) {
        1024
    }

    fn variant() -> (variant: Sha2Variant) {
        Sha2Variant::Sha512
    }

    open spec fn spec_state_bytes() -> nat {
        64
    }

    open spec fn spec_block_bytes() -> nat {
        128
    }

    open spec fn spec_message_length_bits() -> nat {
        128
    }

    open spec fn spec_compress(state: Seq<u8>, input: Seq<u8>) -> Seq<u8> {
        sha512_compress_bytes(state, input)
    }

    open spec fn spec_hash(message: Seq<u8>) -> Seq<u8> {
        sha512_digest(message)
    }

    fn message_length_bits() -> (bits: usize) {
        128
    }

    fn compress(state: &mut [u8], input: &[u8]) {
        compress512_slices(state, input);
    }

    fn hash(message: &[u8]) -> (digest: Vec<u8>)
        ensures
            digest@.len() == 64,
    {
        digest512(message)
    }
}

impl Sha2Config for Sha384Config {
    open spec fn spec_variant() -> Sha2Variant {
        Sha2Variant::Sha384
    }

    fn block_bits() -> (bits: usize) {
        1024
    }

    fn variant() -> (variant: Sha2Variant) {
        Sha2Variant::Sha384
    }

    open spec fn spec_state_bytes() -> nat {
        64
    }

    open spec fn spec_block_bytes() -> nat {
        128
    }

    open spec fn spec_message_length_bits() -> nat {
        128
    }

    open spec fn spec_compress(state: Seq<u8>, input: Seq<u8>) -> Seq<u8> {
        sha512_compress_bytes(state, input)
    }

    open spec fn spec_hash(message: Seq<u8>) -> Seq<u8> {
        sha384_digest(message)
    }

    fn message_length_bits() -> (bits: usize) {
        128
    }

    fn compress(state: &mut [u8], input: &[u8]) {
        compress512_slices(state, input);
    }

    fn hash(message: &[u8]) -> (digest: Vec<u8>)
        ensures
            digest@.len() == 48,
    {
        digest384(message)
    }
}

/// The last `width` bytes of a number in big-endian order.
pub open spec fn be_bytes(value: nat, width: nat) -> Seq<u8>
    decreases width,
{
    if width == 0 {
        Seq::empty()
    } else {
        be_bytes(value / 256, (width - 1) as nat).push((value % 256) as u8)
    }
}

/// Appends the last `width` bytes of a number in big-endian order.
pub fn push_be_bytes(bytes: &mut Vec<u8>, value: u128, width: usize)
    ensures
        final(bytes)@ == old(bytes)@ + be_bytes(value as nat, width as nat),
    decreases width,
{
    if width > 0 {
        push_be_bytes(bytes, value / 256, width - 1);
        bytes.push((value % 256) as u8);
    }
    assert(final(bytes)@ =~= old(bytes)@ + be_bytes(value as nat, width as nat));
}

/// Number of zero bytes that the padding of a message of `len` bytes holds.
pub open spec fn padding_len<C: Sha2Config>(len: nat) -> nat {
    let block = 8 * C::spec_block_bytes();
    ((block - ((len + 1 + C::spec_message_length_bits()) % block)) % (block as int)) as nat
}

/// Number of bytes in which the padded message stores its length: sixteen for
/// SHA-384, eight for the other two.
pub open spec fn padding_length_field<C: Sha2Config>() -> nat {
    match C::spec_variant() {
        Sha2Variant::Sha384 => 16,
        _ => 8,
    }
}

/// A message with its padding: the byte `0x80`, the zero bytes, and the
/// number of bytes up to there as a big-endian number.
pub open spec fn padded_message<C: Sha2Config>(message: Seq<u8>) -> Seq<u8> {
    let marked = message + seq![0x80u8] + Seq::new(padding_len::<C>(message.len()), |i: int| 0u8);
    marked + be_bytes(marked.len(), padding_length_field::<C>())
}

/// Pads a message.
pub fn add_padding_to_message<C: Sha2Config>(message: Vec<u8>) -> (padded: Vec<u8>)
    requires
        C::spec_block_bytes() >= 1,
        8 * C::spec_block_bytes() <= usize::MAX,
        message@.len() + 1 + C::spec_message_length_bits() + 8 * C::spec_block_bytes()
            <= usize::MAX,
    ensures
        padded@ == padded_message::<C>(message@),
{
    let mut message = message;
    let ghost start = message@;
    let block = C::block_bits();
    let zeros = (block - ((message.len() + 1 + C::message_length_bits()) % block)) % block;
    message.push(0x80);
    let mut i: usize = 0;
    assert(message@ =~= start + seq![0x80u8] + Seq::new(0, |k: int| 0u8));
    while i < zeros
        invariant
            i <= zeros,
            start.len() + 1 + zeros <= usize::MAX,
            message@ == start + seq![0x80u8] + Seq::new(i as nat, |k: int| 0u8),
        decreases zeros - i,
    {
        message.push(0);
        i = i + 1;
        assert(message@ =~= start + seq![0x80u8] + Seq::new(i as nat, |k: int| 0u8));
    }
    let len = message.len() as u128;
    match C::variant() {
        Sha2Variant::Sha384 => {
            push_be_bytes(&mut message, len, 16);
        },
        _ => {
            push_be_bytes(&mut message, len, 8);
        },
    }
    message
}

/// Guest memory after `data` was written to the data address space from `ptr`
/// on, in words of four bytes; bytes behind the last whole word are left out.
pub open spec fn with_slice_at(bytes: Seq<u8>, data: Seq<u8>, ptr: int) -> Seq<u8> {
    Seq::new(
        bytes.len(),
        |i: int|
            if ptr <= i < ptr + 4 * (data.len() / 4) {
                data[i - ptr]
            } else {
                bytes[i]
            },
    )
}

/// Writes `data` to the data address space of guest memory from `ptr` on, in
/// words of four bytes.
pub fn write_slice_to_memory(memory: &mut GuestMemory, data: &[u8], ptr: usize)
    requires
        old(memory).mem@.len() > RV32_MEMORY_AS,
        ptr + data@.len() <= old(memory).space(RV32_MEMORY_AS as int).len(),
        ptr + data@.len() <= u32::MAX,
    ensures
        final(memory).mem@.len() == old(memory).mem@.len(),
        forall|s: int|
            0 <= s < old(memory).mem@.len() && s != RV32_MEMORY_AS ==> final(memory).mem@[s] == old(
                memory,
            ).mem@[s],
        final(memory).space(RV32_MEMORY_AS as int) == with_slice_at(
            old(memory).space(RV32_MEMORY_AS as int),
            data@,
            ptr as int,
        ),
{
    let words = data.len() / 4;
    let ghost start = memory.space(RV32_MEMORY_AS as int);
    let mut i: usize = 0;
    assert(memory.space(RV32_MEMORY_AS as int) =~= with_slice_at(start, data@.take(0), ptr as int));
    while i < words
        invariant
            i <= words,
            words == data@.len() / 4,
            ptr + data@.len() <= start.len(),
            ptr + data@.len() <= u32::MAX,
            memory.mem@.len() == old(memory).mem@.len(),
            memory.mem@.len() > RV32_MEMORY_AS,
            forall|s: int|
                0 <= s < old(memory).mem@.len() && s != RV32_MEMORY_AS ==> memory.mem@[s] == old(
                    memory,
                ).mem@[s],
            memory.space(RV32_MEMORY_AS as int) == with_slice_at(
                start,
                data@.take(4 * i),
                ptr as int,
            ),
        decreases words - i,
    {
        let chunk: [u8; 4] = [data[4 * i], data[4 * i + 1], data[4 * i + 2], data[4 * i + 3]];
        memory.write(RV32_MEMORY_AS, (ptr + 4 * i) as u32, chunk);
        i = i + 1;
        assert(memory.space(RV32_MEMORY_AS as int) =~= with_slice_at(
            start,
            data@.take(4 * i),
            ptr as int,
        ));
    }
    assert(memory.space(RV32_MEMORY_AS as int) =~= with_slice_at(start, data@, ptr as int));
}

} // verus!
