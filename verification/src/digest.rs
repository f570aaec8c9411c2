//! The digest engine: it buffers input, hands full 64-byte chunks to the
//! compression function, and on finalization pads the rest with the message's
//! bit length and serializes the state into 16 bytes.

use vstd::prelude::*;
use vstd::slice::slice_subrange;
use crate::compress::{compress, compress_spec, initial_state};
use crate::encoding::{le_bytes_u32, le_bytes_u64, u32_to_le, u64_to_le};

verus! {

/// The state after every full 64-byte chunk of `bytes` has been absorbed in
/// order, starting from `state`. A rest of fewer than 64 bytes is left out.
pub open spec fn absorb(state: Seq<u32>, bytes: Seq<u8>) -> Seq<u32>
    decreases bytes.len(),
{
    if bytes.len() < 64 {
        state
    } else {
        absorb(compress_spec(state, bytes.subrange(0, 64)), bytes.subrange(64, bytes.len() as int))
    }
}

/// How many zero bytes the padding of a message of `len` bytes holds: the
/// fewest that bring the length, with the marker byte, to 56 modulo 64.
pub open spec fn zero_fill(len: nat) -> nat {
    ((55 - len) % 64) as nat
}

/// The length of a message of `len` bytes in bits, as the 64-bit counter
/// holds it: modulo 2^64.
pub open spec fn bit_length(len: nat) -> u64 {
    ((len * 8) % 0x1_0000_0000_0000_0000) as u64
}

/// What finalization appends to a message of `len` bytes: the marker byte
/// `0x80`, the zero fill, and the bit length in eight little-endian bytes.
pub open spec fn padding(len: nat) -> Seq<u8> {
    seq![0x80u8] + Seq::new(zero_fill(len), |i: int| 0u8) + le_bytes_u64(bit_length(len))
}

/// The four state words, each in four little-endian bytes, in word order.
pub open spec fn state_bytes(state: Seq<u32>) -> Seq<u8>
    recommends
        state.len() == 4,
{
    le_bytes_u32(state[0]) + le_bytes_u32(state[1]) + le_bytes_u32(state[2]) + le_bytes_u32(
        state[3],
    )
}

/// The digest of a message: the serialized state after the padded message has
/// been absorbed from the initial state.
pub open spec fn digest(message: Seq<u8>) -> Seq<u8> {
    state_bytes(absorb(initial_state(), message + padding(message.len())))
}

/// The end of a message that does not fill a chunk: what follows its last
/// full 64-byte chunk.
pub open spec fn rest_of(message: Seq<u8>) -> Seq<u8> {
    message.subrange(message.len() - message.len() % 64, message.len() as int)
}

/// Whether `expected` is the digest of `data`.
pub open spec fn digest_accepts(data: Seq<u8>, expected: Seq<u8>) -> bool {
    digest(data) == expected
}

/// A digest has 16 bytes.
pub proof fn lemma_digest_len(message: Seq<u8>)
    ensures
        digest(message).len() == 16,
{
}

/// The digest depends on the bytes of the message and on nothing else: two
/// messages with the same bytes have the same digest.
pub proof fn lemma_digest_deterministic(x: Seq<u8>, y: Seq<u8>)
    requires
        x =~= y,
    ensures
        digest(x) == digest(y),
{
}

/// Every message is accepted against its own digest.
pub proof fn lemma_own_digest_accepted(x: Seq<u8>)
    ensures
        digest_accepts(x, digest(x)),
{
}

/// A message whose digest differs from that of `x` is rejected against the
/// digest of `x`.
pub proof fn lemma_other_digest_rejected(x: Seq<u8>, y: Seq<u8>)
    requires
        digest(y) != digest(x),
    ensures
        !digest_accepts(y, digest(x)),
{
}

/// The zero fill is the fewest bytes that bring a message of `len` bytes,
/// with the marker byte and the eight bytes of the length, to a whole number
/// of chunks.
pub proof fn lemma_zero_fill_completes(len: nat)
    ensures
        zero_fill(len) < 64,
        (len + 9 + zero_fill(len)) % 64 == 0,
        len % 64 + 9 + zero_fill(len) == 64 || len % 64 + 9 + zero_fill(len) == 128,
{
}

/// The padding brings every message to a whole number of chunks: it has
/// between 9 and 72 bytes, and with it the message's unabsorbed rest fills
/// one chunk or two.
pub proof fn lemma_padding_fills_chunks(message: Seq<u8>)
    ensures
        9 <= padding(message.len()).len() <= 72,
        (message + padding(message.len())).len() % 64 == 0,
        (rest_of(message) + padding(message.len())).len() == 64 || (rest_of(message) + padding(
            message.len(),
        )).len() == 128,
{
    let len = message.len();
    lemma_zero_fill_completes(len);
    assert(le_bytes_u64(bit_length(len)).len() == 8);
    assert(padding(len).len() == 9 + zero_fill(len));
    assert(rest_of(message).len() == len % 64);
}

/// Absorbing `a + b` is absorbing `a`, then `b`, where `a` is made of full
/// chunks.
pub proof fn lemma_absorb_concat(state: Seq<u32>, a: Seq<u8>, b: Seq<u8>)
    requires
        a.len() % 64 == 0,
    ensures
        absorb(state, a + b) == absorb(absorb(state, a), b),
    decreases a.len(),
{
    if a.len() == 0 {
        assert(a + b =~= b);
    } else {
        let ab = a + b;
        let rest = a.subrange(64, a.len() as int);
        assert(ab.subrange(0, 64) =~= a.subrange(0, 64));
        assert(ab.subrange(64, ab.len() as int) =~= rest + b);
        lemma_absorb_concat(compress_spec(state, a.subrange(0, 64)), rest, b);
    }
}

/// A rest of fewer than 64 bytes after full chunks does not change what is
/// absorbed.
pub proof fn lemma_absorb_ignores_rest(state: Seq<u32>, bytes: Seq<u8>)
    ensures
        absorb(state, bytes) == absorb(
            state,
            bytes.subrange(0, bytes.len() - bytes.len() % 64),
        ),
{
    let full = bytes.len() - bytes.len() % 64;
    let head = bytes.subrange(0, full);
    let rest = bytes.subrange(full, bytes.len() as int);
    assert(bytes =~= head + rest);
    lemma_absorb_concat(state, head, rest);
    lemma_absorb_concat(state, head, Seq::<u8>::empty());
    assert(head + Seq::<u8>::empty() =~= head);
}

/// Absorbing a message and what follows it is absorbing the message, then
/// the message's unabsorbed rest together with what follows.
pub proof fn lemma_absorb_resume(state: Seq<u32>, message: Seq<u8>, more: Seq<u8>)
    ensures
        absorb(state, message + more) == absorb(
            absorb(state, message),
            rest_of(message) + more,
        ),
{
    let full = message.len() - message.len() % 64;
    let head = message.subrange(0, full);
    let held = rest_of(message);
    assert(message + more =~= head + (held + more));
    lemma_absorb_concat(state, head, held + more);
    lemma_absorb_ignores_rest(state, message);
}

/// The rest of a longer message is found from the rest of the message so
/// far and what was added.
pub proof fn lemma_rest_of_concat(message: Seq<u8>, more: Seq<u8>)
    ensures
        rest_of(message + more) == rest_of(rest_of(message) + more),
{
    let joined = rest_of(message) + more;
    let full = message.len() - message.len() % 64;
    assert((message + more).len() == full + joined.len());
    assert((full + joined.len()) % 64 == joined.len() % 64) by (nonlinear_arith)
        requires
            full % 64 == 0,
    ;
    assert(rest_of(message + more) =~= rest_of(joined));
}

/// The byte counter, which wraps at 2^64, follows the message's length.
pub proof fn lemma_counter_follows(len: nat, counter: u64, added: usize)
    requires
        counter == len % 0x1_0000_0000_0000_0000,
    ensures
        vstd::wrapping::u64_specs::wrapping_add(counter, added as u64) == (len + added)
            % 0x1_0000_0000_0000_0000,
        vstd::wrapping::u64_specs::wrapping_mul(counter, 8) == bit_length(len),
{
    assert(((len % 0x1_0000_0000_0000_0000) * 8) % 0x1_0000_0000_0000_0000 == (len * 8)
        % 0x1_0000_0000_0000_0000) by (nonlinear_arith);
}

/// While the padded buffer is not yet at 56 modulo 64, the zero fill is not
/// complete; once it is there, the fill is complete.
pub proof fn lemma_zero_fill(len: nat, fill: nat)
    requires
        fill <= zero_fill(len),
    ensures
        (len % 64 + 1 + fill) % 64 == 56 <==> fill == zero_fill(len),
{
}

/// Serializes the state: each word in four little-endian bytes, in word
/// order.
pub fn serialize_state(state: &[u32; 4]) -> (bytes: [u8; 16])
    ensures
        bytes@ == state_bytes(state@),
{
    let w0 = u32_to_le(state[0]);
    let w1 = u32_to_le(state[1]);
    let w2 = u32_to_le(state[2]);
    let w3 = u32_to_le(state[3]);
    let bytes: [u8; 16] = [
        w0[0], w0[1], w0[2], w0[3],
        w1[0], w1[1], w1[2], w1[3],
        w2[0], w2[1], w2[2], w2[3],
        w3[0], w3[1], w3[2], w3[3],
    ];
    assert(bytes@ =~= state_bytes(state@));
    bytes
}

/// Whether two hashes are equal, found without leaving early: the differences
/// of all 16 byte pairs are gathered by XOR and OR, and the hashes are equal
/// just when nothing was gathered.
pub fn constant_time_eq(left: &[u8; 16], right: &[u8; 16]) -> (equal: bool)
    ensures
        equal == (left@ == right@),
{
    let mut gathered: u8 = 0;
    let mut i: usize = 0;
    while i < 16
        invariant
            i <= 16,
            gathered == 0 <==> forall|j: int| 0 <= j < i ==> left@[j] == right@[j],
        decreases 16 - i,
    {
        let before = gathered;
        let x = left[i];
        let y = right[i];
        gathered = before | (x ^ y);
        assert((before | (x ^ y)) == 0 <==> before == 0 && x == y) by (bit_vector);
        i += 1;
    }
    assert(gathered == 0 ==> left@ =~= right@);
    gathered == 0
}

/// A digest engine that is still taking input.
///
/// Its view is the message so far: every byte handed to `update`, in order.
pub struct SMCHash {
    state: [u32; 4],
    buffer: Vec<u8>,
    total_bytes: u64,
    message: Ghost<Seq<u8>>,
}

impl View for SMCHash {
    type V = Seq<u8>;

    closed spec fn view(&self) -> Seq<u8> {
        self.message@
    }
}

impl SMCHash {
    /// The engine's invariant: the state has absorbed every full chunk of the
    /// message, the buffer holds the rest, fewer than 64 bytes, and the counter
    /// holds the message's length modulo 2^64.
    pub closed spec fn wf(&self) -> bool {
        let m = self.message@;
        &&& self.state@ == absorb(initial_state(), m)
        &&& self.buffer@ == rest_of(m)
        &&& self.total_bytes == m.len() % 0x1_0000_0000_0000_0000
    }

    /// An engine that has taken no input.
    pub fn new() -> (hasher: Self)
        ensures
            hasher.wf(),
            hasher@ == Seq::<u8>::empty(),
    {
        let hasher = SMCHash {
            state: [0x6a09e667, 0xbb67ae85, 0x3c6ef372, 0xa54ff53a],
            buffer: Vec::new(),
            total_bytes: 0,
            message: Ghost(Seq::empty()),
        };
        assert(hasher.state@ =~= initial_state());
        assert(hasher.buffer@ =~= rest_of(hasher.message@));
        hasher
    }

    /// Folds the 64 bytes of the buffer that start at `at` into the state.
    fn process_block(&mut self, at: usize)
        requires
            at + 64 <= old(self).buffer.len(),
        ensures
            final(self).state@ == compress_spec(
                old(self).state@,
                old(self).buffer@.subrange(at as int, at + 64),
            ),
            final(self).buffer == old(self).buffer,
            final(self).total_bytes == old(self).total_bytes,
            final(self).message == old(self).message,
    {
        let block = slice_subrange(self.buffer.as_slice(), at, at + 64);
        self.state = compress(&self.state, block);
    }

    /// Folds every full chunk of the buffer into the state and keeps the rest.
    fn drain_chunks(&mut self)
        ensures
            final(self).state@ == absorb(old(self).state@, old(self).buffer@),
            final(self).buffer@ == rest_of(old(self).buffer@),
            final(self).total_bytes == old(self).total_bytes,
            final(self).message == old(self).message,
    {
        let n = self.buffer.len();
        let mut pos: usize = 0;
        assert(self.buffer@.subrange(0, n as int) =~= self.buffer@);
        while n - pos >= 64
            invariant
                self.buffer == old(self).buffer,
                self.total_bytes == old(self).total_bytes,
                self.message == old(self).message,
                n == self.buffer@.len(),
                pos <= n,
                pos % 64 == 0,
                absorb(old(self).state@, self.buffer@) == absorb(
                    self.state@,
                    self.buffer@.subrange(pos as int, n as int),
                ),
            decreases n - pos,
        {
            proof {
                let rest = self.buffer@.subrange(pos as int, n as int);
                assert(rest.subrange(0, 64) =~= self.buffer@.subrange(pos as int, pos + 64));
                assert(rest.subrange(64, rest.len() as int) =~= self.buffer@.subrange(
                    pos + 64,
                    n as int,
                ));
            }
            self.process_block(pos);
            pos += 64;
        }
        self.buffer = self.buffer.split_off(pos);
    }

    /// Appends `data` to the message.
    pub fn update(&mut self, data: &[u8])
        requires
            old(self).wf(),
        ensures
            final(self).wf(),
            final(self)@ == old(self)@ + data@,
    {
        let ghost before = self.message@;
        let ghost held = self.buffer@;
        self.buffer.extend_from_slice(data);
        self.total_bytes = self.total_bytes.wrapping_add(data.len() as u64);
        self.message = Ghost(before + data@);
        proof {
            assert(self.buffer@ =~= held + data@);
            lemma_absorb_resume(initial_state(), before, data@);
            lemma_rest_of_concat(before, data@);
            lemma_counter_follows(before.len(), old(self).total_bytes, data.len());
        }
        self.drain_chunks();
    }

    /// Appends the padding of the message to the buffer.
    fn pad(&mut self)
        requires
            old(self).wf(),
        ensures
            final(self).buffer@ == old(self).buffer@ + padding(old(self).message@.len()),
            final(self).state == old(self).state,
            final(self).total_bytes == old(self).total_bytes,
            final(self).message == old(self).message,
    {
        let ghost len = self.message@.len();
        let ghost held = self.buffer@;
        let bit_len: u64 = self.total_bytes.wrapping_mul(8);
        proof {
            lemma_counter_follows(len, self.total_bytes, 0);
        }
        self.buffer.push(0x80);
        let ghost mut fill: nat = 0;
        while self.buffer.len() % 64 != 56
            invariant
                self.state == old(self).state,
                self.total_bytes == old(self).total_bytes,
                self.message == old(self).message,
                held.len() == len % 64,
                fill <= zero_fill(len),
                self.buffer@ == held + seq![0x80u8] + Seq::new(fill, |i: int| 0u8),
            decreases zero_fill(len) - fill,
        {
            proof {
                lemma_zero_fill(len, fill);
            }
            self.buffer.push(0);
            proof {
                assert(Seq::new(fill, |i: int| 0u8).push(0u8) =~= Seq::new(
                    fill + 1,
                    |i: int| 0u8,
                ));
                fill = fill + 1;
            }
        }
        proof {
            lemma_zero_fill(len, fill);
        }
        let length_bytes = u64_to_le(bit_len);
        self.buffer.extend_from_slice(length_bytes.as_slice());
        assert(self.buffer@ =~= held + padding(len));
    }

    /// Ends the message and returns its digest.
    pub fn finalize(self) -> (hash: [u8; 16])
        requires
            self.wf(),
        ensures
            hash@ == digest(self@),
    {
        let mut engine = self;
        proof {
            lemma_absorb_resume(initial_state(), engine.message@, padding(engine.message@.len()));
        }
        engine.pad();
        engine.drain_chunks();
        serialize_state(&engine.state)
    }

    /// The digest of `data`, in one call.
    pub fn hash(data: &[u8]) -> (hash: [u8; 16])
        ensures
            hash@ == digest(data@),
    {
        let mut hasher = SMCHash::new();
        hasher.update(data);
        assert(hasher@ =~= data@);
        hasher.finalize()
    }

    /// Whether `expected_hash` is the digest of `data`. The comparison looks
    /// at all 16 bytes, wherever the first difference lies.
    pub fn verify(data: &[u8], expected_hash: &[u8; 16]) -> (ok: bool)
        ensures
            ok == digest_accepts(data@, expected_hash@),
    {
        let computed_hash = Self::hash(data);
        constant_time_eq(&computed_hash, expected_hash)
    }
}

} // verus!
