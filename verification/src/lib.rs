//! A minimal single-process proof-of-work ledger.
//!
//! A [`Blockchain`] is an append-only sequence of [`Block`]s. Every block
//! stores the digest of its own fields and the digest of its predecessor, and
//! is extended by a brute-force search for a nonce whose digest starts with a
//! given number of zero hex characters.

pub mod block;
pub mod blockchain;
pub mod clock;
pub mod decimal;
pub mod digest;
pub mod error;
pub mod laws;

pub use block::{meets_difficulty, Block};
pub use blockchain::Blockchain;
pub use decimal::to_decimal;
pub use digest::render_content;
pub use error::{ChainError, MineError};
