//! Proof of work: the search for the least nonce whose hash with the data
//! meets a difficulty, and the check of a claimed nonce and hash.

use vstd::prelude::*;
use crate::digest::{constant_time_eq, digest, SMCHash};
use crate::encoding::{le_bytes_u64, u64_to_le};

verus! {

/// The greatest difficulty: every bit of the 16-byte hash.
pub const MAX_DIFFICULTY: u8 = 128;

/// Why no proof of work was produced.
#[derive(Debug, Clone, Copy, PartialEq, Eq, Structural)]
pub enum PowError {
    /// The difficulty asks for more bits than a hash has.
    DifficultyOutOfRange,
    /// No 64-bit nonce gives a hash that meets the difficulty.
    NonceSpaceExhausted,
}

/// The mask that keeps the low `bits` bits of a byte, for `bits` from 1 to 7.
pub open spec fn low_mask(bits: u8) -> u8
    recommends
        1 <= bits <= 7,
{
    0xffu8 >> ((8 - bits) as u8)
}

/// Whether `hash` meets `difficulty`: its first `difficulty / 8` bytes are
/// zero, and where `difficulty` is no multiple of 8, so are the low
/// `difficulty mod 8` bits of the byte after them.
pub open spec fn meets_difficulty(hash: Seq<u8>, difficulty: u8) -> bool
    recommends
        hash.len() == 16,
        difficulty <= 128,
{
    &&& forall|i: int| 0 <= i < difficulty / 8 ==> hash[i] == 0
    &&& difficulty % 8 > 0 ==> hash[(difficulty / 8) as int] & low_mask(difficulty % 8) == 0
}

/// The hash that proof of work gives `data` under `nonce`: the digest of the
/// data followed by the nonce in eight little-endian bytes.
pub open spec fn pow_hash(data: Seq<u8>, nonce: u64) -> Seq<u8> {
    digest(data + le_bytes_u64(nonce))
}

/// Whether `nonce` and `hash` are a proof of work for `data` at `difficulty`:
/// the difficulty is in range, the hash is the one that the nonce gives, and
/// it meets the difficulty.
pub open spec fn is_proof(data: Seq<u8>, nonce: u64, difficulty: u8, hash: Seq<u8>) -> bool {
    &&& difficulty <= 128
    &&& hash == pow_hash(data, nonce)
    &&& meets_difficulty(hash, difficulty)
}

/// Whether `nonce` and `hash` are what the search returns for `data` at
/// `difficulty`: a proof of work such that no smaller nonce gives one.
pub open spec fn is_mined(data: Seq<u8>, difficulty: u8, nonce: u64, hash: Seq<u8>) -> bool {
    &&& is_proof(data, nonce, difficulty, hash)
    &&& forall|n: u64| n < nonce ==> !meets_difficulty(#[trigger] pow_hash(data, n), difficulty)
}

/// What the search returns is accepted as a proof of work, and its hash has
/// the zeros that the difficulty asks for: the first `difficulty / 8` bytes,
/// and the low `difficulty mod 8` bits of the byte after them.
pub proof fn lemma_mined_is_accepted(data: Seq<u8>, difficulty: u8, nonce: u64, hash: Seq<u8>)
    requires
        is_mined(data, difficulty, nonce, hash),
    ensures
        is_proof(data, nonce, difficulty, hash),
        forall|i: int| 0 <= i < difficulty / 8 ==> hash[i] == 0,
        difficulty % 8 > 0 ==> hash[(difficulty / 8) as int] & low_mask(difficulty % 8) == 0,
{
}

/// A mined hash is rejected under the next nonce, where that nonce gives
/// another hash.
pub proof fn lemma_next_nonce_rejected(data: Seq<u8>, difficulty: u8, nonce: u64, hash: Seq<u8>)
    requires
        is_mined(data, difficulty, nonce, hash),
        nonce < u64::MAX,
        pow_hash(data, (nonce + 1) as u64) != pow_hash(data, nonce),
    ensures
        !is_proof(data, (nonce + 1) as u64, difficulty, hash),
{
}

/// A byte has its low `bits` bits zero just when it is a multiple of
/// 2^`bits`.
pub proof fn lemma_low_mask(byte: u8, bits: u8)
    requires
        1 <= bits <= 7,
    ensures
        byte & low_mask(bits) == 0 <==> byte % (1u8 << bits) == 0,
{
    assert(byte & (0xffu8 >> ((8 - bits) as u8)) == 0 <==> byte % (1u8 << bits) == 0)
        by (bit_vector)
        requires
            1 <= bits <= 7,
    ;
}

/// Whether `hash` meets `difficulty`.
pub fn meets_target(hash: &[u8; 16], difficulty: u8) -> (met: bool)
    requires
        difficulty <= 128,
    ensures
        met == meets_difficulty(hash@, difficulty),
{
    let zeros_required: usize = (difficulty / 8) as usize;
    let bits_in_last_byte: u8 = difficulty % 8;
    let mut i: usize = 0;
    while i < zeros_required
        invariant
            i <= zeros_required <= 16,
            zeros_required == difficulty / 8,
            forall|j: int| 0 <= j < i ==> hash@[j] == 0,
        decreases zeros_required - i,
    {
        if hash[i] != 0 {
            return false;
        }
        i += 1;
    }
    if bits_in_last_byte > 0 {
        let target_mask: u8 = 0xffu8 >> (8 - bits_in_last_byte);
        (hash[zeros_required] & target_mask) == 0
    } else {
        true
    }
}

impl SMCHash {
    /// The hash of `data` followed by `nonce`.
    pub fn hash_with_nonce(data: &[u8], nonce: u64) -> (hash: [u8; 16])
        ensures
            hash@ == pow_hash(data@, nonce),
    {
        let mut hasher = SMCHash::new();
        hasher.update(data);
        let nonce_bytes = u64_to_le(nonce);
        hasher.update(nonce_bytes.as_slice());
        assert(hasher@ =~= data@ + le_bytes_u64(nonce));
        hasher.finalize()
    }

    /// Searches the nonces from `first` to `last`, in order, for the first
    /// whose hash with `data` meets `difficulty`. Searches over ranges that do
    /// not overlap share nothing and can run side by side.
    pub fn search_nonces(data: &[u8], difficulty: u8, first: u64, last: u64) -> (found: Option<
        (u64, [u8; 16]),
    >)
        requires
            difficulty <= 128,
        ensures
            match found {
                Some((nonce, hash)) => {
                    &&& first <= nonce <= last
                    &&& is_proof(data@, nonce, difficulty, hash@)
                    &&& forall|n: u64|
                        first <= n < nonce ==> !meets_difficulty(
                            #[trigger] pow_hash(data@, n),
                            difficulty,
                        )
                },
                None => forall|n: u64|
                    first <= n <= last ==> !meets_difficulty(
                        #[trigger] pow_hash(data@, n),
                        difficulty,
                    ),
            },
    {
        if first > last {
            return None;
        }
        let mut nonce: u64 = first;
        loop
            invariant
                difficulty <= 128,
                first <= nonce <= last,
                forall|n: u64|
                    first <= n < nonce ==> !meets_difficulty(
                        #[trigger] pow_hash(data@, n),
                        difficulty,
                    ),
            decreases last - nonce,
        {
            let hash = Self::hash_with_nonce(data, nonce);
            if meets_target(&hash, difficulty) {
                return Some((nonce, hash));
            }
            if nonce == last {
                return None;
            }
            nonce += 1;
        }
    }

    /// Searches the nonces from zero upwards for the first whose hash with
    /// `data` meets `difficulty`.
    ///
    /// A difficulty above 128 is refused, since a hash has no more bits. The
    /// search has no bound but the nonces themselves: at a high difficulty it
    /// runs for as long as it takes, and it gives up only when all 2^64 nonces
    /// have failed.
    pub fn create_proof_of_work(data: &[u8], difficulty: u8) -> (found: Result<
        (u64, [u8; 16]),
        PowError,
    >)
        ensures
            match found {
                Ok((nonce, hash)) => is_mined(data@, difficulty, nonce, hash@),
                Err(PowError::DifficultyOutOfRange) => difficulty > 128,
                Err(PowError::NonceSpaceExhausted) => difficulty <= 128 && forall|n: u64|
                    !meets_difficulty(#[trigger] pow_hash(data@, n), difficulty),
            },
    {
        if difficulty > MAX_DIFFICULTY {
            return Err(PowError::DifficultyOutOfRange);
        }
        match Self::search_nonces(data, difficulty, 0, u64::MAX) {
            Some(found) => Ok(found),
            None => Err(PowError::NonceSpaceExhausted),
        }
    }

    /// Whether `nonce` and `expected_hash` are a proof of work for `data` at
    /// `difficulty`: the hash must be the one that the nonce gives, and it
    /// must meet the difficulty. Any other input, a difficulty above 128
    /// among them, gives `false`.
    pub fn verify_proof_of_work(
        data: &[u8],
        nonce: u64,
        difficulty: u8,
        expected_hash: &[u8; 16],
    ) -> (ok: bool)
        ensures
            ok == is_proof(data@, nonce, difficulty, expected_hash@),
    {
        if difficulty > MAX_DIFFICULTY {
            return false;
        }
        let hash = Self::hash_with_nonce(data, nonce);
        if !constant_time_eq(&hash, expected_hash) {
            return false;
        }
        meets_target(&hash, difficulty)
    }
}

} // verus!
