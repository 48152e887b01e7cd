//! Blocks: construction, content digest, and the proof-of-work search.

use vstd::prelude::*;
use vstd::string::*;

use crate::clock::since_unix_epoch;
use crate::digest::{
    block_digest, debug_quoted, encode_hex_lower, hashed_bytes, is_digest_text,
    lemma_hex_lower_alphabet, quote_debug, render_content, sha3_256, sha3_256_of, DIGEST_HEX_LEN,
};
use crate::error::MineError;

verus! {

/// One record of the ledger.
///
/// At rest, `hash` is the digest of the other five fields. Mining changes
/// `nonce` and `hash` only.
#[derive(Debug, Clone)]
pub struct Block {
    /// Position in the chain; the genesis block has index zero.
    pub index: u64,
    /// Milliseconds since the Unix epoch, taken when the block was made.
    pub timestamp: u128,
    /// Hash of the preceding block, or `"0"` for the genesis block.
    pub prev_hash: String,
    /// Digest of `index`, `timestamp`, `prev_hash`, `nonce` and `data`.
    pub hash: String,
    /// Opaque payload.
    pub data: String,
    /// Counter varied by the proof-of-work search.
    pub nonce: u64,
}

/// The mathematical value of a [`Block`].
pub struct BlockView {
    pub index: u64,
    pub timestamp: u128,
    pub prev_hash: Seq<char>,
    pub hash: Seq<char>,
    pub data: Seq<char>,
    pub nonce: u64,
}

impl View for Block {
    type V = BlockView;

    open spec fn view(&self) -> BlockView {
        BlockView {
            index: self.index,
            timestamp: self.timestamp,
            prev_hash: self.prev_hash@,
            hash: self.hash@,
            data: self.data@,
            nonce: self.nonce,
        }
    }
}

impl BlockView {
    /// The digest of the five hashed fields, whatever `hash` holds.
    pub open spec fn digest(self) -> Seq<char> {
        block_digest(self.index, self.timestamp, self.prev_hash, self.nonce, self.data)
    }

    /// Whether the stored hash is the digest of the other fields.
    pub open spec fn sealed(self) -> bool {
        self.hash == self.digest()
    }

    /// This block with the given nonce and the hash that belongs to it.
    pub open spec fn resealed(self, nonce: u64) -> BlockView {
        BlockView {
            nonce,
            hash: block_digest(self.index, self.timestamp, self.prev_hash, nonce, self.data),
            ..self
        }
    }

    /// The bytes that are hashed for this block.
    pub open spec fn hashed_bytes(self) -> Seq<u8> {
        hashed_bytes(self.index, self.timestamp, self.prev_hash, self.nonce, self.data)
    }

    /// Whether the quoting or the hash function fails to tell the contents
    /// of the two blocks apart: two different strings with one quoted form,
    /// or two different byte strings with one SHA3-256 digest.
    pub open spec fn collides_with(self, other: BlockView) -> bool {
        ||| self.prev_hash != other.prev_hash && debug_quoted(self.prev_hash) == debug_quoted(
            other.prev_hash,
        )
        ||| self.data != other.data && debug_quoted(self.data) == debug_quoted(other.data)
        ||| self.hashed_bytes() != other.hashed_bytes() && sha3_256_of(self.hashed_bytes())
            == sha3_256_of(other.hashed_bytes())
    }

    /// Whether the two blocks agree on the five hashed fields.
    pub open spec fn same_content(self, other: BlockView) -> bool {
        &&& self.index == other.index
        &&& self.timestamp == other.timestamp
        &&& self.prev_hash == other.prev_hash
        &&& self.nonce == other.nonce
        &&& self.data == other.data
    }
}

/// A block as it is before any mining: nonce zero, hash computed for it.
pub open spec fn fresh_block(index: u64, timestamp: u128, prev_hash: Seq<char>, data: Seq<char>)
    -> BlockView {
    BlockView {
        index,
        timestamp,
        prev_hash,
        hash: block_digest(index, timestamp, prev_hash, 0, data),
        data,
        nonce: 0,
    }
}

/// Whether the first `difficulty` characters of `hash` exist and are all `'0'`.
pub open spec fn has_zero_prefix(hash: Seq<char>, difficulty: nat) -> bool {
    &&& difficulty <= hash.len()
    &&& forall|i: int| 0 <= i < difficulty ==> hash[i] == '0'
}

/// Whether `after` is what the nonce search makes of `before`.
///
/// A block whose stored hash already satisfies the difficulty is left as it
/// is. Otherwise the nonce is the first one above the old nonce whose digest
/// satisfies the difficulty, and the hash is that digest.
pub open spec fn mined_from(after: BlockView, before: BlockView, difficulty: nat) -> bool {
    if has_zero_prefix(before.hash, difficulty) {
        after == before
    } else {
        &&& before.nonce < after.nonce
        &&& after == before.resealed(after.nonce)
        &&& has_zero_prefix(after.hash, difficulty)
        &&& forall|n: u64|
            before.nonce < n < after.nonce ==> !has_zero_prefix(
                #[trigger] before.resealed(n).hash,
                difficulty,
            )
    }
}

/// Whether neither the stored hash of `before` nor the digest for any larger
/// nonce satisfies the difficulty.
pub open spec fn search_exhausted(before: BlockView, difficulty: nat) -> bool {
    &&& !has_zero_prefix(before.hash, difficulty)
    &&& forall|n: u64|
        before.nonce < n ==> !has_zero_prefix(#[trigger] before.resealed(n).hash, difficulty)
}

/// Tests whether `hash` starts with `difficulty` zero characters.
pub fn meets_difficulty(hash: &str, difficulty: usize) -> (met: bool)
    ensures
        met == has_zero_prefix(hash@, difficulty as nat),
{
    let len = hash.unicode_len();
    if difficulty > len {
        return false;
    }
    let mut i: usize = 0;
    while i < difficulty
        invariant
            i <= difficulty <= len,
            len == hash@.len(),
            forall|j: int| 0 <= j < i ==> hash@[j] == '0',
        decreases difficulty - i,
    {
        if hash.get_char(i) != '0' {
            return false;
        }
        i += 1;
    }
    true
}

impl Block {
    /// Creates a block stamped with the current time, with nonce zero and
    /// the hash that belongs to it. The block is not mined.
    pub fn new(index: u64, prev_hash: String, data: String) -> (block: Block)
        ensures
            block@ == fresh_block(index, block.timestamp, prev_hash@, data@),
            block@.sealed(),
            is_digest_text(block.hash@),
    {
        Block::with_timestamp(index, Block::current_timestamp(), prev_hash, data)
    }

    /// Creates a block with the given timestamp, with nonce zero and the
    /// hash that belongs to it. The block is not mined.
    pub fn with_timestamp(index: u64, timestamp: u128, prev_hash: String, data: String) -> (block:
        Block)
        ensures
            block@ == fresh_block(index, timestamp, prev_hash@, data@),
            block@.sealed(),
            is_digest_text(block.hash@),
    {
        let nonce: u64 = 0;
        let hash = Block::calculate_hash(index, timestamp, prev_hash.as_str(), nonce, data.as_str());
        Block { index, timestamp, prev_hash, hash, data, nonce }
    }

    /// Reads the system clock as milliseconds since the Unix epoch. A clock
    /// set before the epoch reads as zero.
    ///
    /// The value is whatever the clock says at the moment of the call, so
    /// nothing is promised of it: callers treat a timestamp as opaque data.
    pub fn current_timestamp() -> u128 {
        let now = std::time::SystemTime::now();
        match since_unix_epoch(&now) {
            Ok(elapsed) => elapsed.as_millis(),
            Err(_) => 0,
        }
    }

    /// Computes the digest of a block's five hashed fields: 64 lowercase hex
    /// characters that depend on nothing but the arguments. The text that is
    /// hashed keeps the five fields apart, so two sets of fields get the same
    /// digest only where the quoting or SHA3-256 gives the same result for
    /// two different inputs.
    pub fn calculate_hash(index: u64, timestamp: u128, prev_hash: &str, nonce: u64, data: &str) -> (hash:
        String)
        ensures
            hash@ == block_digest(index, timestamp, prev_hash@, nonce, data@),
            is_digest_text(hash@),
    {
        let prev_quoted = quote_debug(prev_hash);
        let data_quoted = quote_debug(data);
        let content = render_content(
            index,
            timestamp,
            prev_quoted.as_str(),
            nonce,
            data_quoted.as_str(),
        );
        let sum = sha3_256(content.as_str().as_bytes());
        proof {
            lemma_hex_lower_alphabet(sum@);
        }
        encode_hex_lower(sum.as_slice())
    }

    /// Searches for a nonce whose digest starts with `difficulty` zeros.
    ///
    /// The search resumes from the nonce that the block holds: the stored
    /// hash is tested first, then the digests for the following nonces, in
    /// order. On success the block holds the first nonce found and its hash;
    /// the other fields are never touched. A difficulty above the length of
    /// a digest is refused, and a search that runs out of nonces reports so;
    /// in both cases the block is left as it was.
    pub fn mine_block(&mut self, difficulty: usize) -> (r: Result<(), MineError>)
        ensures
            final(self).nonce >= old(self).nonce,
            old(self)@.sealed() ==> final(self)@.sealed(),
            final(self).hash@ == old(self).hash@ || is_digest_text(final(self).hash@),
            match r {
                Ok(()) => {
                    &&& difficulty <= DIGEST_HEX_LEN
                    &&& mined_from(final(self)@, old(self)@, difficulty as nat)
                    &&& has_zero_prefix(final(self).hash@, difficulty as nat)
                },
                Err(MineError::InvalidDifficulty) => {
                    &&& difficulty > DIGEST_HEX_LEN
                    &&& *final(self) == *old(self)
                },
                Err(MineError::NotFound) => {
                    &&& difficulty <= DIGEST_HEX_LEN
                    &&& search_exhausted(old(self)@, difficulty as nat)
                    &&& *final(self) == *old(self)
                },
            },
    {
        if difficulty > DIGEST_HEX_LEN {
            return Err(MineError::InvalidDifficulty);
        }
        if meets_difficulty(self.hash.as_str(), difficulty) {
            return Ok(());
        }
        let mut nonce = self.nonce;
        while nonce < u64::MAX
            invariant
                *self == *old(self),
                self.nonce <= nonce,
                !has_zero_prefix(self.hash@, difficulty as nat),
                forall|n: u64|
                    self.nonce < n <= nonce ==> !has_zero_prefix(
                        #[trigger] self@.resealed(n).hash,
                        difficulty as nat,
                    ),
            decreases u64::MAX - nonce,
        {
            nonce = nonce + 1;
            let hash = Block::calculate_hash(
                self.index,
                self.timestamp,
                self.prev_hash.as_str(),
                nonce,
                self.data.as_str(),
            );
            if meets_difficulty(hash.as_str(), difficulty) {
                self.nonce = nonce;
                self.hash = hash;
                return Ok(());
            }
        }
        Err(MineError::NotFound)
    }
}

} // verus!
