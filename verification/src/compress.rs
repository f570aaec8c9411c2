//! The compression function: four rounds of sixteen mixing steps that fold one
//! 64-byte chunk into a state of four 32-bit words.

use vstd::prelude::*;
use crate::encoding::{le_word, read_le_u32};

verus! {

/// The state before any chunk has been absorbed.
pub open spec fn initial_state() -> Seq<u32> {
    seq![0x6a09e667u32, 0xbb67ae85u32, 0x3c6ef372u32, 0xa54ff53au32]
}

/// The four working registers of the mixing steps.
#[derive(Clone, Copy)]
pub struct Registers {
    pub a: u32,
    pub b: u32,
    pub c: u32,
    pub d: u32,
}

/// Addition modulo 2^32.
pub open spec fn add32(x: u32, y: u32) -> u32 {
    ((x + y) % 0x1_0000_0000) as u32
}

/// Circular left shift of `x` by `n` bits, for `n` from 1 to 31.
pub open spec fn rotl_spec(x: u32, n: u32) -> u32
    recommends
        1 <= n <= 31,
{
    (x << n) | (x >> ((32 - n) as u32))
}

/// The boolean mixing function of a round.
pub open spec fn mix_spec(round: int, b: u32, c: u32, d: u32) -> u32 {
    if round == 0 {
        (b & c) | (!b & d)
    } else if round == 1 {
        (b & d) | (c & !d)
    } else if round == 2 {
        b ^ c ^ d
    } else {
        c ^ (b | !d)
    }
}

/// Which message word step `i` of a round reads.
pub open spec fn word_index_spec(round: int, i: int) -> int {
    if round == 0 {
        i
    } else if round == 1 {
        (5 * i + 1) % 16
    } else if round == 2 {
        (3 * i + 5) % 16
    } else {
        (7 * i) % 16
    }
}

/// The additive constant of a round, to which the step index is added.
pub open spec fn round_constant_spec(round: int) -> u32 {
    if round == 0 {
        0x79cc4519
    } else if round == 1 {
        0x9d8a7a87
    } else if round == 2 {
        0xe9b5dba5
    } else {
        0xc19bf274
    }
}

/// The rotation amount of step `i` of a round: each round has a table of four
/// amounts, read at `i mod 4`.
pub open spec fn rotation_spec(round: int, i: int) -> u32 {
    let j = i % 4;
    if round == 0 {
        if j == 0 { 7 } else if j == 1 { 12 } else if j == 2 { 17 } else { 22 }
    } else if round == 1 {
        if j == 0 { 5 } else if j == 1 { 9 } else if j == 2 { 14 } else { 20 }
    } else if round == 2 {
        if j == 0 { 4 } else if j == 1 { 11 } else if j == 2 { 16 } else { 23 }
    } else {
        if j == 0 { 6 } else if j == 1 { 10 } else if j == 2 { 15 } else { 21 }
    }
}

/// The sixteen little-endian words of a chunk.
pub open spec fn chunk_words(chunk: Seq<u8>) -> Seq<u32>
    recommends
        chunk.len() == 64,
{
    Seq::new(16, |j: int| le_word(chunk, 4 * j))
}

/// One mixing step: the registers rotate, and the new `b` takes in the old
/// `a`, the mixing function, one message word and the round's constant.
pub open spec fn step(r: Registers, words: Seq<u32>, round: int, i: int) -> Registers {
    let f = mix_spec(round, r.b, r.c, r.d);
    let w = words[word_index_spec(round, i)];
    let k = add32(round_constant_spec(round), i as u32);
    let sum = add32(add32(add32(r.a, f), w), k);
    Registers { a: r.d, b: add32(r.b, rotl_spec(sum, rotation_spec(round, i))), c: r.b, d: r.c }
}

/// The registers after the first `n` of the 64 steps; step `t` is step
/// `t mod 16` of round `t / 16`.
pub open spec fn after_steps(start: Registers, words: Seq<u32>, n: nat) -> Registers
    decreases n,
{
    if n == 0 {
        start
    } else {
        step(after_steps(start, words, (n - 1) as nat), words, (n - 1) / 16, (n - 1) % 16)
    }
}

/// The state that follows `state` once `chunk` has been absorbed: all 64 steps
/// are run on a copy of the state, and the outcome is added to the state word
/// by word.
#[verifier::opaque]
pub open spec fn compress_spec(state: Seq<u32>, chunk: Seq<u8>) -> Seq<u32>
    recommends
        state.len() == 4,
        chunk.len() == 64,
{
    let start = Registers { a: state[0], b: state[1], c: state[2], d: state[3] };
    let end = after_steps(start, chunk_words(chunk), 64);
    seq![
        add32(state[0], end.a),
        add32(state[1], end.b),
        add32(state[2], end.c),
        add32(state[3], end.d),
    ]
}

/// Within a round, the sixteen steps read the sixteen message words, each
/// once.
pub proof fn lemma_word_index_permutes(round: int, i: int, j: int)
    requires
        0 <= i < 16,
        0 <= j < 16,
        i != j,
    ensures
        0 <= word_index_spec(round, i) < 16,
        word_index_spec(round, i) != word_index_spec(round, j),
{
}

/// Circular left shift of `x` by `n` bits.
pub fn rotl(x: u32, n: u32) -> (r: u32)
    requires
        1 <= n <= 31,
    ensures
        r == rotl_spec(x, n),
{
    (x << n) | (x >> (32 - n))
}

/// The boolean mixing function of round `round`.
pub fn mix(round: usize, b: u32, c: u32, d: u32) -> (f: u32)
    ensures
        f == mix_spec(round as int, b, c, d),
{
    match round {
        0 => (b & c) | (!b & d),
        1 => (b & d) | (c & !d),
        2 => b ^ c ^ d,
        _ => c ^ (b | !d),
    }
}

/// The index of the message word that step `i` of round `round` reads.
pub fn word_index(round: usize, i: usize) -> (idx: usize)
    requires
        i < 16,
    ensures
        idx == word_index_spec(round as int, i as int),
        idx < 16,
{
    match round {
        0 => i,
        1 => (5 * i + 1) % 16,
        2 => (3 * i + 5) % 16,
        _ => (7 * i) % 16,
    }
}

/// The additive constant of round `round`.
pub fn round_constant(round: usize) -> (k: u32)
    ensures
        k == round_constant_spec(round as int),
{
    match round {
        0 => 0x79cc4519,
        1 => 0x9d8a7a87,
        2 => 0xe9b5dba5,
        _ => 0xc19bf274,
    }
}

/// The rotation amount of step `i` of round `round`.
pub fn rotation(round: usize, i: usize) -> (s: u32)
    ensures
        s == rotation_spec(round as int, i as int),
        1 <= s <= 31,
{
    let table: [u32; 4] = match round {
        0 => [7, 12, 17, 22],
        1 => [5, 9, 14, 20],
        2 => [4, 11, 16, 23],
        _ => [6, 10, 15, 21],
    };
    table[i % 4]
}

/// Decodes the sixteen little-endian words of a 64-byte chunk.
pub fn load_words(chunk: &[u8]) -> (words: [u32; 16])
    requires
        chunk@.len() == 64,
    ensures
        words@ == chunk_words(chunk@),
{
    let mut words: [u32; 16] = [0u32; 16];
    let mut j: usize = 0;
    while j < 16
        invariant
            j <= 16,
            chunk@.len() == 64,
            forall|t: int| 0 <= t < j ==> words@[t] == le_word(chunk@, 4 * t),
        decreases 16 - j,
    {
        words[j] = read_le_u32(chunk, 4 * j);
        j += 1;
    }
    assert(words@ =~= chunk_words(chunk@));
    words
}

/// Adds modulo 2^32.
pub fn add_mod(x: u32, y: u32) -> (r: u32)
    ensures
        r == add32(x, y),
{
    x.wrapping_add(y)
}

/// Runs step `i` of round `round` on the registers.
pub fn mix_step(r: Registers, words: &[u32; 16], round: usize, i: usize) -> (next: Registers)
    requires
        i < 16,
    ensures
        next == step(r, words@, round as int, i as int),
{
    let f = mix(round, r.b, r.c, r.d);
    let w = words[word_index(round, i)];
    let k = add_mod(round_constant(round), i as u32);
    let sum = add_mod(add_mod(add_mod(r.a, f), w), k);
    let turned = rotl(sum, rotation(round, i));
    Registers { a: r.d, b: add_mod(r.b, turned), c: r.b, d: r.c }
}

/// Folds one 64-byte chunk into the state.
pub fn compress(state: &[u32; 4], chunk: &[u8]) -> (next: [u32; 4])
    requires
        chunk@.len() == 64,
    ensures
        next@ == compress_spec(state@, chunk@),
{
    let words = load_words(chunk);
    let start = Registers { a: state[0], b: state[1], c: state[2], d: state[3] };
    let mut r = start;
    let mut round: usize = 0;
    while round < 4
        invariant
            round <= 4,
            r == after_steps(start, words@, (16 * round) as nat),
        decreases 4 - round,
    {
        let mut i: usize = 0;
        while i < 16
            invariant
                round < 4,
                i <= 16,
                r == after_steps(start, words@, (16 * round + i) as nat),
            decreases 16 - i,
        {
            proof {
                let n: int = 16 * round + i;
                assert(n / 16 == round && n % 16 == i);
                assert(after_steps(start, words@, (n + 1) as nat) == step(
                    after_steps(start, words@, n as nat),
                    words@,
                    n / 16,
                    n % 16,
                ));
            }
            r = mix_step(r, &words, round, i);
            i += 1;
        }
        round += 1;
    }
    let next: [u32; 4] = [
        add_mod(state[0], r.a),
        add_mod(state[1], r.b),
        add_mod(state[2], r.c),
        add_mod(state[3], r.d),
    ];
    assert(next@ =~= compress_spec(state@, chunk@)) by {
        reveal(compress_spec);
    }
    next
}

} // verus!
