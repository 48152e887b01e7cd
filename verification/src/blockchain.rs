//! The chain: genesis, append, and whole-chain validation.

use vstd::prelude::*;
use vstd::string::*;

use crate::block::{fresh_block, has_zero_prefix, mined_from, search_exhausted, Block, BlockView};
use crate::digest::{is_digest_text, DIGEST_HEX_LEN};
use crate::error::ChainError;

verus! {

/// An owned, growing sequence of blocks that share one mining difficulty.
#[derive(Debug)]
pub struct Blockchain {
    /// The blocks in insertion order; the first is the genesis block.
    pub blocks: Vec<Block>,
    /// Number of leading zero hex characters that every mined hash must show.
    pub difficulty: usize,
}

/// The mathematical value of a [`Blockchain`].
pub struct ChainView {
    pub blocks: Seq<BlockView>,
    pub difficulty: nat,
}

impl View for Blockchain {
    type V = ChainView;

    open spec fn view(&self) -> ChainView {
        ChainView {
            blocks: self.blocks@.map_values(|b: Block| b@),
            difficulty: self.difficulty as nat,
        }
    }
}

/// The predecessor hash of a genesis block.
pub open spec fn genesis_prev_hash() -> Seq<char> {
    "0"@
}

/// The payload of a genesis block.
pub open spec fn genesis_data() -> Seq<char> {
    "Genesis Block"@
}

/// The block that follows `tail` before it is mined.
pub open spec fn successor(tail: BlockView, timestamp: u128, data: Seq<char>) -> BlockView {
    fresh_block((tail.index + 1) as u64, timestamp, tail.hash, data)
}

/// What validation checks: every block but the first is sealed and names
/// the hash of the block before it. The first block is taken on trust.
pub open spec fn links_hold(blocks: Seq<BlockView>) -> bool {
    forall|i: int|
        1 <= i < blocks.len() ==> {
            &&& (#[trigger] blocks[i]).sealed()
            &&& blocks[i].prev_hash == blocks[i - 1].hash
        }
}

impl ChainView {
    /// Whether the chain passes validation.
    pub open spec fn valid(self) -> bool {
        links_hold(self.blocks)
    }

    /// What holds of every chain that was made by [`Blockchain::new`] and
    /// grown by [`Blockchain::add_block`] alone.
    pub open spec fn well_formed(self) -> bool {
        &&& self.blocks.len() > 0
        &&& self.difficulty <= DIGEST_HEX_LEN
        &&& self.blocks[0].prev_hash == genesis_prev_hash()
        &&& self.blocks[0].data == genesis_data()
        &&& forall|i: int|
            0 <= i < self.blocks.len() ==> {
                &&& (#[trigger] self.blocks[i]).index == i
                &&& self.blocks[i].sealed()
                &&& is_digest_text(self.blocks[i].hash)
                &&& has_zero_prefix(self.blocks[i].hash, self.difficulty)
            }
        &&& forall|i: int|
            1 <= i < self.blocks.len() ==> (#[trigger] self.blocks[i]).prev_hash == self.blocks[i
                - 1].hash
    }
}

/// A well-formed chain stays well-formed when the mined successor of its
/// tail is appended.
pub proof fn lemma_append_well_formed(
    chain: ChainView,
    block: BlockView,
    timestamp: u128,
    data: Seq<char>,
)
    requires
        chain.well_formed(),
        chain.blocks.last().index < u64::MAX,
        mined_from(block, successor(chain.blocks.last(), timestamp, data), chain.difficulty),
        is_digest_text(block.hash),
    ensures
        (ChainView { blocks: chain.blocks.push(block), ..chain }).well_formed(),
{
    let grown = chain.blocks.push(block);
    let tail = chain.blocks.last();
    let fresh = successor(tail, timestamp, data);
    assert(fresh.sealed());
    assert(block.sealed());
    assert(block.index == tail.index + 1);
    assert(block.prev_hash == tail.hash);
    assert(has_zero_prefix(block.hash, chain.difficulty));
    assert forall|i: int| 0 <= i < grown.len() implies {
        &&& (#[trigger] grown[i]).index == i
        &&& grown[i].sealed()
        &&& is_digest_text(grown[i].hash)
        &&& has_zero_prefix(grown[i].hash, chain.difficulty)
    } by {
        if i < chain.blocks.len() {
            assert(grown[i] == chain.blocks[i]);
        }
    }
    assert forall|i: int| 1 <= i < grown.len() implies (#[trigger] grown[i]).prev_hash == grown[i
        - 1].hash by {
        assert(grown[i - 1] == chain.blocks[i - 1]);
        if i < chain.blocks.len() {
            assert(grown[i] == chain.blocks[i]);
        }
    }
    assert(grown[0] == chain.blocks[0]);
}

impl Blockchain {
    /// Creates a chain that holds one mined genesis block stamped with the
    /// current time.
    ///
    /// Fails with `InvalidDifficulty` exactly when `difficulty` exceeds the
    /// length of a digest, and with `NotFound` when the nonce search for the
    /// genesis block runs out.
    pub fn new(difficulty: usize) -> (r: Result<Blockchain, ChainError>)
        ensures
            match r {
                Ok(chain) => {
                    &&& difficulty <= DIGEST_HEX_LEN
                    &&& chain.difficulty == difficulty
                    &&& chain@.blocks.len() == 1
                    &&& mined_from(
                        chain@.blocks[0],
                        fresh_block(0, chain@.blocks[0].timestamp, genesis_prev_hash(), genesis_data()),
                        difficulty as nat,
                    )
                    &&& chain@.well_formed()
                },
                Err(e) => {
                    &&& e != ChainError::EmptyChain
                    &&& e == ChainError::InvalidDifficulty <==> difficulty > DIGEST_HEX_LEN
                    &&& e == ChainError::NotFound ==> exists|timestamp: u128|
                        search_exhausted(
                            #[trigger] fresh_block(0, timestamp, genesis_prev_hash(), genesis_data()),
                            difficulty as nat,
                        )
                },
            },
    {
        Blockchain::new_at(difficulty, Block::current_timestamp())
    }

    /// Creates a chain that holds one mined genesis block with the given
    /// timestamp.
    pub fn new_at(difficulty: usize, timestamp: u128) -> (r: Result<Blockchain, ChainError>)
        ensures
            match r {
                Ok(chain) => {
                    &&& difficulty <= DIGEST_HEX_LEN
                    &&& chain.difficulty == difficulty
                    &&& chain@.blocks.len() == 1
                    &&& mined_from(
                        chain@.blocks[0],
                        fresh_block(0, timestamp, genesis_prev_hash(), genesis_data()),
                        difficulty as nat,
                    )
                    &&& chain@.well_formed()
                },
                Err(e) => {
                    &&& e != ChainError::EmptyChain
                    &&& e == ChainError::InvalidDifficulty <==> difficulty > DIGEST_HEX_LEN
                    &&& e == ChainError::NotFound ==> search_exhausted(
                        fresh_block(0, timestamp, genesis_prev_hash(), genesis_data()),
                        difficulty as nat,
                    )
                },
            },
    {
        let mut chain = Blockchain { blocks: Vec::new(), difficulty };
        match chain.create_genesis_block(timestamp) {
            Ok(()) => {
                assert(chain@.blocks[0] == chain.blocks@[0]@);
                Ok(chain)
            },
            Err(e) => Err(e),
        }
    }

    /// Mines the genesis block and appends it.
    fn create_genesis_block(&mut self, timestamp: u128) -> (r: Result<(), ChainError>)
        ensures
            final(self).difficulty == old(self).difficulty,
            match r {
                Ok(()) => {
                    &&& old(self).difficulty <= DIGEST_HEX_LEN
                    &&& final(self).blocks@.len() == old(self).blocks@.len() + 1
                    &&& final(self).blocks@.drop_last() == old(self).blocks@
                    &&& mined_from(
                        final(self).blocks@.last()@,
                        fresh_block(0, timestamp, genesis_prev_hash(), genesis_data()),
                        old(self).difficulty as nat,
                    )
                    &&& is_digest_text(final(self).blocks@.last().hash@)
                },
                Err(e) => {
                    &&& *final(self) == *old(self)
                    &&& e != ChainError::EmptyChain
                    &&& e == ChainError::InvalidDifficulty <==> old(self).difficulty
                        > DIGEST_HEX_LEN
                    &&& e == ChainError::NotFound ==> search_exhausted(
                        fresh_block(0, timestamp, genesis_prev_hash(), genesis_data()),
                        old(self).difficulty as nat,
                    )
                },
            },
    {
        let mut genesis_block = Block::with_timestamp(
            0,
            timestamp,
            "0".to_owned(),
            "Genesis Block".to_owned(),
        );
        match genesis_block.mine_block(self.difficulty) {
            Ok(()) => {
                self.blocks.push(genesis_block);
                Ok(())
            },
            Err(e) => Err(ChainError::from_mining(e)),
        }
    }

    /// The last block of the chain, or `EmptyChain` when there is none.
    pub fn latest_block(&self) -> (r: Result<&Block, ChainError>)
        ensures
            match r {
                Ok(block) => self.blocks@.len() > 0 && *block == self.blocks@.last(),
                Err(e) => self.blocks@.len() == 0 && e == ChainError::EmptyChain,
            },
    {
        match self.blocks.as_slice().last() {
            Some(block) => Ok(block),
            None => Err(ChainError::EmptyChain),
        }
    }

    /// Makes a block with the given payload after the current tail, stamped
    /// with the current time, mines it at the chain's difficulty and
    /// appends it.
    ///
    /// Fails with `EmptyChain` exactly when the chain holds no block,
    /// otherwise with `InvalidDifficulty` exactly when the chain's
    /// difficulty exceeds the length of a digest, and with `NotFound` when
    /// the nonce search runs out. A chain is unchanged by a failure.
    pub fn add_block(&mut self, data: String) -> (r: Result<(), ChainError>)
        requires
            old(self).blocks@.len() > 0 ==> old(self).blocks@.last().index < u64::MAX,
        ensures
            final(self).difficulty == old(self).difficulty,
            match r {
                Ok(()) => {
                    &&& old(self)@.blocks.len() > 0
                    &&& old(self).difficulty <= DIGEST_HEX_LEN
                    &&& final(self)@.blocks.len() == old(self)@.blocks.len() + 1
                    &&& final(self)@.blocks.drop_last() == old(self)@.blocks
                    &&& mined_from(
                        final(self)@.blocks.last(),
                        successor(
                            old(self)@.blocks.last(),
                            final(self)@.blocks.last().timestamp,
                            data@,
                        ),
                        old(self).difficulty as nat,
                    )
                    &&& final(self)@.blocks.last().sealed()
                    &&& is_digest_text(final(self)@.blocks.last().hash)
                    &&& has_zero_prefix(
                        final(self)@.blocks.last().hash,
                        old(self).difficulty as nat,
                    )
                },
                Err(e) => {
                    &&& *final(self) == *old(self)
                    &&& e == ChainError::EmptyChain <==> old(self)@.blocks.len() == 0
                    &&& e == ChainError::InvalidDifficulty <==> old(self)@.blocks.len() > 0
                        && old(self).difficulty > DIGEST_HEX_LEN
                    &&& e == ChainError::NotFound ==> exists|timestamp: u128|
                        search_exhausted(
                            #[trigger] successor(old(self)@.blocks.last(), timestamp, data@),
                            old(self).difficulty as nat,
                        )
                },
            },
            old(self)@.well_formed() && r is Ok ==> final(self)@.well_formed(),
    {
        self.add_block_at(data, Block::current_timestamp())
    }

    /// Makes a block with the given payload and timestamp after the current
    /// tail, mines it at the chain's difficulty and appends it.
    pub fn add_block_at(&mut self, data: String, timestamp: u128) -> (r: Result<(), ChainError>)
        requires
            old(self).blocks@.len() > 0 ==> old(self).blocks@.last().index < u64::MAX,
        ensures
            final(self).difficulty == old(self).difficulty,
            match r {
                Ok(()) => {
                    &&& old(self)@.blocks.len() > 0
                    &&& old(self).difficulty <= DIGEST_HEX_LEN
                    &&& final(self)@.blocks.len() == old(self)@.blocks.len() + 1
                    &&& final(self)@.blocks.drop_last() == old(self)@.blocks
                    &&& mined_from(
                        final(self)@.blocks.last(),
                        successor(old(self)@.blocks.last(), timestamp, data@),
                        old(self).difficulty as nat,
                    )
                    &&& final(self)@.blocks.last().sealed()
                    &&& is_digest_text(final(self)@.blocks.last().hash)
                    &&& has_zero_prefix(
                        final(self)@.blocks.last().hash,
                        old(self).difficulty as nat,
                    )
                },
                Err(e) => {
                    &&& *final(self) == *old(self)
                    &&& e == ChainError::EmptyChain <==> old(self)@.blocks.len() == 0
                    &&& e == ChainError::InvalidDifficulty <==> old(self)@.blocks.len() > 0
                        && old(self).difficulty > DIGEST_HEX_LEN
                    &&& e == ChainError::NotFound ==> search_exhausted(
                        successor(old(self)@.blocks.last(), timestamp, data@),
                        old(self).difficulty as nat,
                    )
                },
            },
            old(self)@.well_formed() && r is Ok ==> final(self)@.well_formed(),
    {
        let latest_block = match self.latest_block() {
            Ok(block) => block,
            Err(e) => {
                return Err(e);
            },
        };
        let mut new_block = Block::with_timestamp(
            latest_block.index + 1,
            timestamp,
            latest_block.hash.clone(),
            data,
        );
        match new_block.mine_block(self.difficulty) {
            Ok(()) => {
                self.blocks.push(new_block);
                proof {
                    assert(self@.blocks =~= old(self)@.blocks.push(new_block@));
                    assert(old(self)@.blocks.push(new_block@).drop_last() =~= old(self)@.blocks);
                    assert(old(self)@.blocks.last() == latest_block@);
                    if old(self)@.well_formed() {
                        lemma_append_well_formed(old(self)@, new_block@, timestamp, data@);
                    }
                }
                Ok(())
            },
            Err(e) => Err(ChainError::from_mining(e)),
        }
    }

    /// Checks every block but the first: its stored hash must be the digest
    /// of its fields, and its predecessor hash must be the stored hash of
    /// the block before it. The genesis block's own hash is not recomputed.
    pub fn is_valid(&self) -> (valid: bool)
        ensures
            valid == self@.valid(),
    {
        let n = self.blocks.len();
        let mut i: usize = 1;
        while i < n
            invariant
                1 <= i,
                n == self.blocks@.len(),
                forall|j: int|
                    1 <= j < i ==> {
                        &&& (#[trigger] self@.blocks[j]).sealed()
                        &&& self@.blocks[j].prev_hash == self@.blocks[j - 1].hash
                    },
            decreases n - i,
        {
            let current_block = &self.blocks[i];
            let previous_block = &self.blocks[i - 1];
            assert(self@.blocks[i as int] == current_block@);
            assert(self@.blocks[i - 1] == previous_block@);
            let expected = Block::calculate_hash(
                current_block.index,
                current_block.timestamp,
                current_block.prev_hash.as_str(),
                current_block.nonce,
                current_block.data.as_str(),
            );
            if current_block.hash != expected {
                return false;
            }
            if current_block.prev_hash != previous_block.hash {
                return false;
            }
            i += 1;
        }
        true
    }
}

} // verus!
