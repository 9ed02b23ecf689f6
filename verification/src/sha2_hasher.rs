//! Streaming hashers over the SHA-2 block functions.
//!
//! A hasher keeps the state, the block that is being filled and the number of
//! bytes taken so far. Input is buffered byte by byte; each time the block is
//! full it is taken into the state. Finalizing appends the byte `0x80`, clears
//! the block up to its last eight bytes, stores the number of bytes taken, as a
//! big-endian number, in the length field at the end of the block, and takes
//! that block in. The state starts as zero bytes.

use vstd::prelude::*;
use crate::sha2_config::{
    be_bytes, sha256_compress, sha512_compress, Sha256Config, Sha2Config, Sha512Config,
};

verus! {

/// The mathematical value of a hasher.
pub ghost struct HasherView {
    pub state: Seq<u8>,
    pub buffer: Seq<u8>,
    pub idx: nat,
    pub len: nat,
}

/// The hasher after one more byte.
pub open spec fn absorb_byte<C: Sha2Config>(hasher: HasherView, byte: u8) -> HasherView {
    let buffer = hasher.buffer.update(hasher.idx as int, byte);
    if hasher.idx + 1 == C::spec_block_bytes() {
        HasherView {
            state: C::spec_compress(hasher.state, buffer),
            buffer,
            idx: 0,
            len: hasher.len + 1,
        }
    } else {
        HasherView { state: hasher.state, buffer, idx: hasher.idx + 1, len: hasher.len + 1 }
    }
}

/// The hasher after the first `n` bytes of the input.
pub open spec fn absorb_upto<C: Sha2Config>(hasher: HasherView, input: Seq<u8>, n: int) -> HasherView
    decreases n,
{
    if n <= 0 {
        hasher
    } else {
        absorb_byte::<C>(absorb_upto::<C>(hasher, input, n - 1), input[n - 1])
    }
}

/// The hasher after the input.
pub open spec fn absorb<C: Sha2Config>(hasher: HasherView, input: Seq<u8>) -> HasherView {
    absorb_upto::<C>(hasher, input, input.len() as int)
}

/// Number of bytes of the length field at the end of the last block.
pub open spec fn length_field_bytes<C: Sha2Config>() -> nat {
    C::spec_message_length_bits() / 8
}

/// The last block: the buffered bytes, zeros from the write position up to the
/// last eight bytes of the block, and the number of bytes taken in the length field.
pub open spec fn last_block<C: Sha2Config>(hasher: HasherView) -> Seq<u8> {
    let block = C::spec_block_bytes();
    let field = length_field_bytes::<C>();
    Seq::new(
        block,
        |i: int|
            if block - field <= i {
                be_bytes(hasher.len, field)[i - (block - field)]
            } else if hasher.idx <= i < block - 8 {
                0u8
            } else {
                hasher.buffer[i]
            },
    )
}

/// The hasher after finalizing; its state is the digest.
pub open spec fn finalized<C: Sha2Config>(hasher: HasherView) -> HasherView {
    let marked = absorb::<C>(hasher, seq![0x80u8]);
    let buffer = last_block::<C>(marked);
    HasherView {
        state: C::spec_compress(marked.state, buffer),
        buffer,
        idx: if marked.idx < C::spec_block_bytes() - 8 {
            (C::spec_block_bytes() - 8) as nat
        } else {
            marked.idx
        },
        len: marked.len,
    }
}

/// Taking in an input and then another is taking in the two in a row.
pub proof fn lemma_absorb_concat<C: Sha2Config>(hasher: HasherView, first: Seq<u8>, second: Seq<u8>)
    ensures
        absorb::<C>(absorb::<C>(hasher, first), second) == absorb::<C>(hasher, first + second),
{
    lemma_absorb_concat_upto::<C>(hasher, first, second, second.len() as int);
    assert((first + second).len() == first.len() + second.len());
}

/// Taking in an input and then the first `n` bytes of another.
pub proof fn lemma_absorb_concat_upto<C: Sha2Config>(
    hasher: HasherView,
    first: Seq<u8>,
    second: Seq<u8>,
    n: int,
)
    requires
        0 <= n <= second.len(),
    ensures
        absorb_upto::<C>(absorb::<C>(hasher, first), second, n) == absorb_upto::<C>(
            hasher,
            first + second,
            first.len() + n,
        ),
    decreases n,
{
    if n == 0 {
        lemma_absorb_prefix::<C>(hasher, first, first + second, first.len() as int);
    } else {
        lemma_absorb_concat_upto::<C>(hasher, first, second, n - 1);
        assert((first + second)[first.len() + n - 1] == second[n - 1]);
    }
}

/// What a hasher takes in of a prefix depends on the prefix only.
pub proof fn lemma_absorb_prefix<C: Sha2Config>(
    hasher: HasherView,
    input: Seq<u8>,
    longer: Seq<u8>,
    n: int,
)
    requires
        0 <= n <= input.len(),
        n <= longer.len(),
        forall|i: int| 0 <= i < n ==> input[i] == longer[i],
    ensures
        absorb_upto::<C>(hasher, input, n) == absorb_upto::<C>(hasher, longer, n),
    decreases n,
{
    if n > 0 {
        lemma_absorb_prefix::<C>(hasher, input, longer, n - 1);
    }
}


/// A streaming hasher over the block function of SHA-256.
#[derive(Debug, Clone, Copy)]
pub struct Sha256 {
    /// The current state.
    pub state: [u8; 32],
    /// The block that is being filled.
    pub buffer: [u8; 64],
    /// The position in the block of the next byte.
    pub idx: usize,
    /// Number of bytes taken so far.
    pub len: usize,
}

impl View for Sha256 {
    type V = HasherView;

    open spec fn view(&self) -> HasherView {
        HasherView {
            state: self.state@,
            buffer: self.buffer@,
            idx: self.idx as nat,
            len: self.len as nat,
        }
    }
}

impl Default for Sha256 {
    fn default() -> (hasher: Self)
        ensures
            hasher.wf(),
            hasher.idx == 0,
            hasher.len == 0,
            hasher.state@ == Seq::new(32, |i: int| 0u8),
            hasher.buffer@ == Seq::new(64, |i: int| 0u8),
    {
        Self::new()
    }
}

impl Sha256 {
    /// The write position lies inside the block.
    pub open spec fn wf(&self) -> bool {
        self.idx < 64
    }

    /// A hasher that has taken nothing yet.
    pub fn new() -> (hasher: Self)
        ensures
            hasher.wf(),
            hasher.idx == 0,
            hasher.len == 0,
            hasher.state@ == Seq::new(32, |i: int| 0u8),
            hasher.buffer@ == Seq::new(64, |i: int| 0u8),
    {
        let hasher = Sha256 { state: [0;32], buffer: [0;64], idx: 0, len: 0 };
        assert(hasher.state@ =~= Seq::new(32, |i: int| 0u8));
        assert(hasher.buffer@ =~= Seq::new(64, |i: int| 0u8));
        hasher
    }

    /// Takes the input in.
    pub fn update(&mut self, input: &[u8])
        requires
            old(self).wf(),
            old(self).len + input@.len() <= usize::MAX,
        ensures
            final(self).wf(),
            final(self)@ == absorb::<Sha256Config>(old(self)@, input@),
    {
        let ghost start = self@;
        let mut pos: usize = 0;
        while pos < input.len()
            invariant
                self.wf(),
                pos <= input@.len(),
                start.len + input@.len() <= usize::MAX,
                self.len == start.len + pos,
                self@ == absorb_upto::<Sha256Config>(start, input@, pos as int),
            decreases input@.len() - pos,
        {
            self.buffer[self.idx] = input[pos];
            self.idx = self.idx + 1;
            self.len = self.len + 1;
            if self.idx == 64 {
                self.idx = 0;
                self.compress();
            }
            pos = pos + 1;
        }
    }

    /// Pads what was taken in, takes the last block in and returns the state as the digest.
    pub fn finalize(&mut self) -> (digest: [u8; 32])
        requires
            old(self).wf(),
            old(self).len + 1 <= usize::MAX,
        ensures
            final(self)@ == finalized::<Sha256Config>(old(self)@),
            digest@ == finalized::<Sha256Config>(old(self)@).state,
    {
        let marker: [u8; 1] = [0x80];
        assert(marker@ =~= seq![0x80u8]);
        self.update(marker.as_slice());
        let ghost marked = self@;
        self.clear_tail();
        self.store_length();
        assert(self.buffer@ =~= last_block::<Sha256Config>(marked));
        self.compress();
        self.state
    }

    /// Clears the block from the write position up to its last eight bytes.
    fn clear_tail(&mut self)
        requires
            old(self).wf(),
        ensures
            final(self).wf(),
            final(self).state == old(self).state,
            final(self).len == old(self).len,
            final(self).idx == if old(self).idx < 64 - 8 {
                (64 - 8) as usize
            } else {
                old(self).idx
            },
            forall|i: int|
                0 <= i < 64 ==> #[trigger] final(self).buffer@[i] == if old(self).idx <= i
                    < 64 - 8 {
                    0u8
                } else {
                    old(self).buffer@[i]
                },
    {
        while self.idx < 64 - 8
            invariant
                self.idx < 64,
                old(self).idx <= self.idx,
                old(self).idx < 64 - 8 || self.idx == old(self).idx,
                self.idx <= 64 - 8 || self.idx == old(self).idx,
                self.state == old(self).state,
                self.len == old(self).len,
                forall|i: int|
                    0 <= i < 64 ==> #[trigger] self.buffer@[i] == if old(self).idx <= i
                        < self.idx {
                        0u8
                    } else {
                        old(self).buffer@[i]
                    },
            decreases 64 - self.idx,
        {
            self.buffer[self.idx] = 0;
            self.idx = self.idx + 1;
        }
    }

    /// Stores the number of bytes taken, as a big-endian number, in the length
    /// field at the end of the block.
    fn store_length(&mut self)
        ensures
            final(self).state == old(self).state,
            final(self).len == old(self).len,
            final(self).idx == old(self).idx,
            forall|i: int|
                0 <= i < 64 - 8 ==> #[trigger] final(self).buffer@[i] == old(
                    self,
                ).buffer@[i],
            final(self).buffer@.subrange(64 - 8, 64) == be_bytes(
                old(self).len as nat,
                8,
            ),
    {
        let mut rest: u64 = self.len as u64;
        let mut k: usize = 8;
        assert(be_bytes(self.len as nat, 8) =~= be_bytes(rest as nat, k as nat)
            + self.buffer@.subrange(64 - 8 + k, 64));
        while k > 0
            invariant
                k <= 8,
                self.state == old(self).state,
                self.len == old(self).len,
                self.idx == old(self).idx,
                forall|i: int|
                    0 <= i < 64 - 8 ==> #[trigger] self.buffer@[i] == old(
                        self,
                    ).buffer@[i],
                be_bytes(self.len as nat, 8) == be_bytes(rest as nat, k as nat)
                    + self.buffer@.subrange(64 - 8 + k, 64),
            decreases k,
        {
            k = k - 1;
            let ghost before = self.buffer@;
            self.buffer[64 - 8 + k] = (rest % 256) as u8;
            proof {
                assert(self.buffer@.subrange(64 - 8 + k, 64) =~= seq![
                    (rest % 256) as u8,
                ] + before.subrange(64 - 8 + k + 1, 64));
                assert(be_bytes(rest as nat, (k + 1) as nat) == be_bytes(
                    (rest / 256) as nat,
                    k as nat,
                ).push((rest % 256) as u8));
                assert(be_bytes(self.len as nat, 8) =~= be_bytes(
                    (rest / 256) as nat,
                    k as nat,
                ) + self.buffer@.subrange(64 - 8 + k, 64));
            }
            rest = rest / 256;
        }
        assert(be_bytes(self.len as nat, 8) =~= self.buffer@.subrange(
            64 - 8,
            64,
        ));
    }

    /// Takes the block in the buffer into the state.
    pub fn compress(&mut self)
        ensures
            final(self).state@ == <Sha256Config as Sha2Config>::spec_compress(
                old(self).state@,
                old(self).buffer@,
            ),
            final(self).buffer == old(self).buffer,
            final(self).idx == old(self).idx,
            final(self).len == old(self).len,
    {
        sha256_compress(&mut self.state, &self.buffer);
    }
}

/// A streaming hasher over the block function of SHA-512.
#[derive(Debug, Clone, Copy)]
pub struct Sha512 {
    /// The current state.
    pub state: [u8; 64],
    /// The block that is being filled.
    pub buffer: [u8; 128],
    /// The position in the block of the next byte.
    pub idx: usize,
    /// Number of bytes taken so far.
    pub len: usize,
}

impl View for Sha512 {
    type V = HasherView;

    open spec fn view(&self) -> HasherView {
        HasherView {
            state: self.state@,
            buffer: self.buffer@,
            idx: self.idx as nat,
            len: self.len as nat,
        }
    }
}

impl Default for Sha512 {
    fn default() -> (hasher: Self)
        ensures
            hasher.wf(),
            hasher.idx == 0,
            hasher.len == 0,
            hasher.state@ == Seq::new(64, |i: int| 0u8),
            hasher.buffer@ == Seq::new(128, |i: int| 0u8),
    {
        Self::new()
    }
}

impl Sha512 {
    /// The write position lies inside the block.
    pub open spec fn wf(&self) -> bool {
        self.idx < 128
    }

    /// A hasher that has taken nothing yet.
    pub fn new() -> (hasher: Self)
        ensures
            hasher.wf(),
            hasher.idx == 0,
            hasher.len == 0,
            hasher.state@ == Seq::new(64, |i: int| 0u8),
            hasher.buffer@ == Seq::new(128, |i: int| 0u8),
    {
        let hasher = Sha512 { state: [0;64], buffer: [0;128], idx: 0, len: 0 };
        assert(hasher.state@ =~= Seq::new(64, |i: int| 0u8));
        assert(hasher.buffer@ =~= Seq::new(128, |i: int| 0u8));
        hasher
    }

    /// Takes the input in.
    pub fn update(&mut self, input: &[u8])
        requires
            old(self).wf(),
            old(self).len + input@.len() <= usize::MAX,
        ensures
            final(self).wf(),
            final(self)@ == absorb::<Sha512Config>(old(self)@, input@),
    {
        let ghost start = self@;
        let mut pos: usize = 0;
        while pos < input.len()
            invariant
                self.wf(),
                pos <= input@.len(),
                start.len + input@.len() <= usize::MAX,
                self.len == start.len + pos,
                self@ == absorb_upto::<Sha512Config>(start, input@, pos as int),
            decreases input@.len() - pos,
        {
            self.buffer[self.idx] = input[pos];
            self.idx = self.idx + 1;
            self.len = self.len + 1;
            if self.idx == 128 {
                self.idx = 0;
                self.compress();
            }
            pos = pos + 1;
        }
    }

    /// Pads what was taken in, takes the last block in and returns the state as the digest.
    pub fn finalize(&mut self) -> (digest: [u8; 64])
        requires
            old(self).wf(),
            old(self).len + 1 <= usize::MAX,
        ensures
            final(self)@ == finalized::<Sha512Config>(old(self)@),
            digest@ == finalized::<Sha512Config>(old(self)@).state,
    {
        let marker: [u8; 1] = [0x80];
        assert(marker@ =~= seq![0x80u8]);
        self.update(marker.as_slice());
        let ghost marked = self@;
        self.clear_tail();
        self.store_length();
        assert(self.buffer@ =~= last_block::<Sha512Config>(marked));
        self.compress();
        self.state
    }

    /// Clears the block from the write position up to its last eight bytes.
    fn clear_tail(&mut self)
        requires
            old(self).wf(),
        ensures
            final(self).wf(),
            final(self).state == old(self).state,
            final(self).len == old(self).len,
            final(self).idx == if old(self).idx < 128 - 8 {
                (128 - 8) as usize
            } else {
                old(self).idx
            },
            forall|i: int|
                0 <= i < 128 ==> #[trigger] final(self).buffer@[i] == if old(self).idx <= i
                    < 128 - 8 {
                    0u8
                } else {
                    old(self).buffer@[i]
                },
    {
        while self.idx < 128 - 8
            invariant
                self.idx < 128,
                old(self).idx <= self.idx,
                old(self).idx < 128 - 8 || self.idx == old(self).idx,
                self.idx <= 128 - 8 || self.idx == old(self).idx,
                self.state == old(self).state,
                self.len == old(self).len,
                forall|i: int|
                    0 <= i < 128 ==> #[trigger] self.buffer@[i] == if old(self).idx <= i
                        < self.idx {
                        0u8
                    } else {
                        old(self).buffer@[i]
                    },
            decreases 128 - self.idx,
        {
            self.buffer[self.idx] = 0;
            self.idx = self.idx + 1;
        }
    }

    /// Stores the number of bytes taken, as a big-endian number, in the length
    /// field at the end of the block.
    fn store_length(&mut self)
        ensures
            final(self).state == old(self).state,
            final(self).len == old(self).len,
            final(self).idx == old(self).idx,
            forall|i: int|
                0 <= i < 128 - 16 ==> #[trigger] final(self).buffer@[i] == old(
                    self,
                ).buffer@[i],
            final(self).buffer@.subrange(128 - 16, 128) == be_bytes(
                old(self).len as nat,
                16,
            ),
    {
        let mut rest: u64 = self.len as u64;
        let mut k: usize = 16;
        assert(be_bytes(self.len as nat, 16) =~= be_bytes(rest as nat, k as nat)
            + self.buffer@.subrange(128 - 16 + k, 128));
        while k > 0
            invariant
                k <= 16,
                self.state == old(self).state,
                self.len == old(self).len,
                self.idx == old(self).idx,
                forall|i: int|
                    0 <= i < 128 - 16 ==> #[trigger] self.buffer@[i] == old(
                        self,
                    ).buffer@[i],
                be_bytes(self.len as nat, 16) == be_bytes(rest as nat, k as nat)
                    + self.buffer@.subrange(128 - 16 + k, 128),
            decreases k,
        {
            k = k - 1;
            let ghost before = self.buffer@;
            self.buffer[128 - 16 + k] = (rest % 256) as u8;
            proof {
                assert(self.buffer@.subrange(128 - 16 + k, 128) =~= seq![
                    (rest % 256) as u8,
                ] + before.subrange(128 - 16 + k + 1, 128));
                assert(be_bytes(rest as nat, (k + 1) as nat) == be_bytes(
                    (rest / 256) as nat,
                    k as nat,
                ).push((rest % 256) as u8));
                assert(be_bytes(self.len as nat, 16) =~= be_bytes(
                    (rest / 256) as nat,
                    k as nat,
                ) + self.buffer@.subrange(128 - 16 + k, 128));
            }
            rest = rest / 256;
        }
        assert(be_bytes(self.len as nat, 16) =~= self.buffer@.subrange(
            128 - 16,
            128,
        ));
    }

    /// Takes the block in the buffer into the state.
    pub fn compress(&mut self)
        ensures
            final(self).state@ == <Sha512Config as Sha2Config>::spec_compress(
                old(self).state@,
                old(self).buffer@,
            ),
            final(self).buffer == old(self).buffer,
            final(self).idx == old(self).idx,
            final(self).len == old(self).len,
    {
        sha512_compress(&mut self.state, &self.buffer);
    }
}

/// A streaming hasher for SHA-384: the hasher of SHA-512 with the digest cut to 48 bytes.
#[derive(Debug, Clone, Copy)]
pub struct Sha384 {
    pub inner: Sha512,
}

impl View for Sha384 {
    type V = HasherView;

    open spec fn view(&self) -> HasherView {
        self.inner@
    }
}

impl Default for Sha384 {
    fn default() -> (hasher: Self)
        ensures
            hasher.wf(),
            hasher.inner.idx == 0,
            hasher.inner.len == 0,
            hasher.inner.state@ == Seq::new(64, |i: int| 0u8),
            hasher.inner.buffer@ == Seq::new(128, |i: int| 0u8),
    {
        Self::new()
    }
}

impl Sha384 {
    /// The write position lies inside the block.
    pub open spec fn wf(&self) -> bool {
        self.inner.wf()
    }

    /// A hasher that has taken nothing yet.
    pub fn new() -> (hasher: Self)
        ensures
            hasher.wf(),
            hasher.inner.idx == 0,
            hasher.inner.len == 0,
            hasher.inner.state@ == Seq::new(64, |i: int| 0u8),
            hasher.inner.buffer@ == Seq::new(128, |i: int| 0u8),
    {
        Sha384 { inner: Sha512::new() }
    }

    /// Takes the input in.
    pub fn update(&mut self, input: &[u8])
        requires
            old(self).wf(),
            old(self).inner.len + input@.len() <= usize::MAX,
        ensures
            final(self).wf(),
            final(self)@ == absorb::<Sha512Config>(old(self)@, input@),
    {
        self.inner.update(input);
    }

    /// Pads what was taken in, takes the last block in and returns the first 48
    /// bytes of the state as the digest.
    pub fn finalize(&mut self) -> (digest: [u8; 48])
        requires
            old(self).wf(),
            old(self).inner.len + 1 <= usize::MAX,
        ensures
            final(self)@ == finalized::<Sha512Config>(old(self)@),
            digest@ == finalized::<Sha512Config>(old(self)@).state.subrange(0, 48),
    {
        let full = self.inner.finalize();
        let mut digest: [u8; 48] = [0;48];
        let mut i: usize = 0;
        while i < 48
            invariant
                i <= 48,
                forall|k: int| 0 <= k < i ==> digest@[k] == full@[k],
            decreases 48 - i,
        {
            digest[i] = full[i];
            i = i + 1;
        }
        assert(digest@ =~= full@.subrange(0, 48));
        digest
    }

    /// Takes the block in the buffer into the state.
    pub fn compress(&mut self)
        ensures
            final(self).inner.state@ == <Sha512Config as Sha2Config>::spec_compress(
                old(self).inner.state@,
                old(self).inner.buffer@,
            ),
            final(self).inner.buffer == old(self).inner.buffer,
            final(self).inner.idx == old(self).inner.idx,
            final(self).inner.len == old(self).inner.len,
    {
        self.inner.compress();
    }
}

} // verus!
