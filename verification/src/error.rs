//! The ways in which mining and chain operations fail.

use vstd::prelude::*;

verus! {

/// Why a nonce search did not produce a block.
#[derive(Debug, Clone, Copy, PartialEq, Eq, Structural)]
pub enum MineError {
    /// The difficulty asks for more leading zeros than a digest has
    /// characters, so no nonce could ever satisfy it.
    InvalidDifficulty,
    /// Every nonce above the starting one was tried and none satisfies the
    /// difficulty.
    NotFound,
}

/// Why a chain operation failed.
#[derive(Debug, Clone, Copy, PartialEq, Eq, Structural)]
pub enum ChainError {
    /// The chain holds no block, so it has no tail to read or to extend.
    EmptyChain,
    /// The chain's difficulty asks for more leading zeros than a digest has
    /// characters.
    InvalidDifficulty,
    /// The nonce search for the new block ran out of candidates.
    NotFound,
}

impl ChainError {
    /// The chain error that reports a mining failure.
    pub open spec fn of_mining(e: MineError) -> ChainError {
        match e {
            MineError::InvalidDifficulty => ChainError::InvalidDifficulty,
            MineError::NotFound => ChainError::NotFound,
        }
    }

    /// Reports a mining failure as a chain error.
    pub fn from_mining(e: MineError) -> (r: ChainError)
        ensures
            r == ChainError::of_mining(e),
    {
        match e {
            MineError::InvalidDifficulty => ChainError::InvalidDifficulty,
            MineError::NotFound => ChainError::NotFound,
        }
    }
}

} // verus!
