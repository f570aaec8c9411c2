//! A block: a record that names its predecessor by hash and is sealed by a
//! proof of work over its own contents.

use vstd::prelude::*;
use crate::digest::SMCHash;
use crate::encoding::{le_bytes_u64, u64_to_le};
use crate::pow::{is_mined, is_proof, meets_difficulty, pow_hash, PowError};

verus! {

/// The bytes that a block's proof of work is made over: the predecessor's
/// hash, the payload, and the timestamp in eight little-endian bytes.
pub open spec fn block_preimage(prev_hash: Seq<u8>, data: Seq<u8>, timestamp: u64) -> Seq<u8> {
    prev_hash + data + le_bytes_u64(timestamp)
}

/// A record in a hash chain. `nonce` and `hash` are found together when the
/// block is made.
#[derive(Debug)]
pub struct Block {
    pub prev_hash: [u8; 16],
    pub data: Vec<u8>,
    pub timestamp: u64,
    pub nonce: u64,
    pub hash: [u8; 16],
}

impl Block {
    /// The bytes that this block's proof of work is made over.
    pub open spec fn preimage(&self) -> Seq<u8> {
        block_preimage(self.prev_hash@, self.data@, self.timestamp)
    }

    /// Whether the block's nonce and hash are a proof of work over its
    /// contents at `difficulty`.
    pub open spec fn is_sealed(&self, difficulty: u8) -> bool {
        is_proof(self.preimage(), self.nonce, difficulty, self.hash@)
    }

    /// Makes a block from its contents and seals it with the proof of work
    /// that the search finds at `difficulty`.
    pub fn new(prev_hash: [u8; 16], data: Vec<u8>, timestamp: u64, difficulty: u8) -> (made: Result<
        Block,
        PowError,
    >)
        ensures
            match made {
                Ok(block) => {
                    &&& block.prev_hash == prev_hash
                    &&& block.data == data
                    &&& block.timestamp == timestamp
                    &&& is_mined(block.preimage(), difficulty, block.nonce, block.hash@)
                },
                Err(PowError::DifficultyOutOfRange) => difficulty > 128,
                Err(PowError::NonceSpaceExhausted) => difficulty <= 128 && forall|n: u64|
                    !meets_difficulty(
                        #[trigger] pow_hash(block_preimage(prev_hash@, data@, timestamp), n),
                        difficulty,
                    ),
            },
    {
        let mut block = Block { prev_hash, data, timestamp, nonce: 0, hash: [0; 16] };
        let block_data = block.get_hashable_data();
        match SMCHash::create_proof_of_work(block_data.as_slice(), difficulty) {
            Ok((nonce, hash)) => {
                block.nonce = nonce;
                block.hash = hash;
                Ok(block)
            },
            Err(e) => Err(e),
        }
    }

    /// The block's preimage, as bytes.
    fn get_hashable_data(&self) -> (bytes: Vec<u8>)
        ensures
            bytes@ == self.preimage(),
    {
        let mut bytes: Vec<u8> = Vec::new();
        bytes.extend_from_slice(self.prev_hash.as_slice());
        bytes.extend_from_slice(self.data.as_slice());
        let stamp = u64_to_le(self.timestamp);
        bytes.extend_from_slice(stamp.as_slice());
        assert(bytes@ =~= self.preimage());
        bytes
    }

    /// Whether the block's nonce and hash are a proof of work over its
    /// contents at `difficulty`.
    pub fn validate(&self, difficulty: u8) -> (ok: bool)
        ensures
            ok == self.is_sealed(difficulty),
    {
        let block_data = self.get_hashable_data();
        SMCHash::verify_proof_of_work(block_data.as_slice(), self.nonce, difficulty, &self.hash)
    }
}

/// A block that was just made is valid at the difficulty it was made at.
pub proof fn lemma_new_block_is_sealed(block: Block, difficulty: u8)
    requires
        is_mined(block.preimage(), difficulty, block.nonce, block.hash@),
    ensures
        block.is_sealed(difficulty),
{
}

/// A block that carries the nonce and hash of a sealed block, but contents
/// that give another hash under that nonce, is not valid.
pub proof fn lemma_altered_block_is_not_sealed(block: Block, altered: Block, difficulty: u8)
    requires
        block.is_sealed(difficulty),
        altered.nonce == block.nonce,
        altered.hash == block.hash,
        pow_hash(altered.preimage(), block.nonce) != pow_hash(block.preimage(), block.nonce),
    ensures
        !altered.is_sealed(difficulty),
{
}

} // verus!
