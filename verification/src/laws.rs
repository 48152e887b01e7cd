//! What holds of digests and chains in general, proved over their
//! mathematical values.

use vstd::prelude::*;

use crate::block::{has_zero_prefix, mined_from, search_exhausted, BlockView};
use crate::blockchain::{links_hold, ChainView};
use crate::digest::{
    content_layout, debug_quoted, lemma_hex_lower_injective, lemma_measured_string_parses,
    lemma_numeral_field_parses, numeral_field, sha3_256_of,
};
use vstd::utf8::{decode_utf8, encode_utf8, encode_utf8_decode_utf8};

verus! {

/// The hashed text keeps its five parts apart: two texts are equal only if
/// index, timestamp, nonce and both quoted strings are equal. So no digit
/// moves from one number to the next, and no character from one string to
/// the other, without changing what is hashed.
pub proof fn content_layout_is_injective(
    index_a: u64,
    timestamp_a: u128,
    prev_a: Seq<char>,
    nonce_a: u64,
    data_a: Seq<char>,
    index_b: u64,
    timestamp_b: u128,
    prev_b: Seq<char>,
    nonce_b: u64,
    data_b: Seq<char>,
)
    requires
        content_layout(index_a, timestamp_a, prev_a, nonce_a, data_a) == content_layout(
            index_b,
            timestamp_b,
            prev_b,
            nonce_b,
            data_b,
        ),
    ensures
        index_a == index_b,
        timestamp_a == timestamp_b,
        prev_a == prev_b,
        nonce_a == nonce_b,
        data_a == data_b,
{
    let tail_a = numeral_field(nonce_a as nat) + data_a;
    let tail_b = numeral_field(nonce_b as nat) + data_b;
    let strings_a = prev_a + tail_a;
    let strings_b = prev_b + tail_b;
    let measured_a = numeral_field(prev_a.len()) + strings_a;
    let measured_b = numeral_field(prev_b.len()) + strings_b;
    let stamped_a = numeral_field(timestamp_a as nat) + measured_a;
    let stamped_b = numeral_field(timestamp_b as nat) + measured_b;
    lemma_numeral_field_parses(index_a as nat, stamped_a, index_b as nat, stamped_b);
    lemma_numeral_field_parses(timestamp_a as nat, measured_a, timestamp_b as nat, measured_b);
    lemma_numeral_field_parses(prev_a.len(), strings_a, prev_b.len(), strings_b);
    lemma_measured_string_parses(prev_a, tail_a, prev_b, tail_b);
    lemma_numeral_field_parses(nonce_a as nat, data_a, nonce_b as nat, data_b);
}

/// A change in any of the five hashed fields changes the digest, unless the
/// quoting or the hash function fails to tell the two contents apart. The
/// layout of the hashed text, its UTF-8 form and the hex encoding lose
/// nothing; what is left out is a collision of SHA3-256 or of the quoting.
pub proof fn digest_tells_contents_apart(a: BlockView, b: BlockView)
    requires
        !a.same_content(b),
        !a.collides_with(b),
    ensures
        a.digest() != b.digest(),
{
    if a.digest() == b.digest() {
        lemma_hex_lower_injective(sha3_256_of(a.hashed_bytes()), sha3_256_of(b.hashed_bytes()));
        assert(a.hashed_bytes() == b.hashed_bytes());
        let text_a = content_layout(
            a.index,
            a.timestamp,
            debug_quoted(a.prev_hash),
            a.nonce,
            debug_quoted(a.data),
        );
        let text_b = content_layout(
            b.index,
            b.timestamp,
            debug_quoted(b.prev_hash),
            b.nonce,
            debug_quoted(b.data),
        );
        encode_utf8_decode_utf8(text_a);
        encode_utf8_decode_utf8(text_b);
        assert(decode_utf8(encode_utf8(text_a)) == decode_utf8(encode_utf8(text_b)));
        assert(text_a == text_b);
        content_layout_is_injective(
            a.index,
            a.timestamp,
            debug_quoted(a.prev_hash),
            a.nonce,
            debug_quoted(a.data),
            b.index,
            b.timestamp,
            debug_quoted(b.prev_hash),
            b.nonce,
            debug_quoted(b.data),
        );
        assert(false);
    }
}

/// The nonce search has one outcome: a block and a difficulty determine
/// whether the search succeeds, and the mined block if it does.
pub proof fn mining_outcome_is_unique(
    before: BlockView,
    first: BlockView,
    second: BlockView,
    difficulty: nat,
)
    requires
        mined_from(first, before, difficulty),
        mined_from(second, before, difficulty),
    ensures
        first == second,
        !search_exhausted(before, difficulty),
{
    if !has_zero_prefix(before.hash, difficulty) {
        assert(has_zero_prefix(before.resealed(first.nonce).hash, difficulty));
        assert(has_zero_prefix(before.resealed(second.nonce).hash, difficulty));
    }
}

/// A chain that was made by `Blockchain::new` and grown by
/// `Blockchain::add_block` alone passes validation: both establish
/// `well_formed`, which implies `valid`.
pub proof fn well_formed_chain_is_valid(chain: ChainView)
    requires
        chain.well_formed(),
    ensures
        chain.valid(),
{
    assert forall|i: int| 1 <= i < chain.blocks.len() implies {
        &&& (#[trigger] chain.blocks[i]).sealed()
        &&& chain.blocks[i].prev_hash == chain.blocks[i - 1].hash
    } by {}
}

/// Tampering with a block after the genesis block is detected.
///
/// `tampered` stands in place of block `i` of a valid chain and differs from
/// it, either in the stored hash alone or in other fields with the stored
/// hash left as it was, which is to say that the hash was not recomputed.
/// The chain is then invalid. A change of the stored hash or of the
/// predecessor hash is always caught. A change confined to index, timestamp,
/// nonce and payload is caught unless the new content has the very digest of
/// the old one, which is left out; by `digest_tells_contents_apart` that
/// takes a collision of SHA3-256 or of the quoting.
pub proof fn tampering_is_detected(blocks: Seq<BlockView>, i: int, tampered: BlockView)
    requires
        links_hold(blocks),
        1 <= i < blocks.len(),
        tampered != blocks[i],
        tampered.hash == blocks[i].hash || tampered.same_content(blocks[i]),
        tampered.hash == blocks[i].hash && tampered.prev_hash == blocks[i].prev_hash
            ==> tampered.digest() != blocks[i].digest(),
    ensures
        !links_hold(blocks.update(i, tampered)),
{
    let changed = blocks.update(i, tampered);
    assert(blocks[i].sealed());
    assert(blocks[i].prev_hash == blocks[i - 1].hash);
    if links_hold(changed) {
        assert(changed[i] == tampered);
        assert(changed[i - 1] == blocks[i - 1]);
        assert(tampered.sealed());
        assert(tampered.prev_hash == blocks[i - 1].hash);
        if tampered.same_content(blocks[i]) {
            assert(tampered.hash != blocks[i].hash);
        }
        assert(false);
    }
}

/// The sequence `blocks` with the blocks at `i` and `j` exchanged.
pub open spec fn swapped(blocks: Seq<BlockView>, i: int, j: int) -> Seq<BlockView> {
    blocks.update(i, blocks[j]).update(j, blocks[i])
}

/// Exchanging two blocks after the genesis block is detected.
///
/// The exchange breaks the linkage of a valid chain unless the two blocks
/// carry the same hash and so do the two blocks before them; such a chain
/// would link up again after the exchange, and is left out.
pub proof fn swap_is_detected(blocks: Seq<BlockView>, i: int, j: int)
    requires
        links_hold(blocks),
        1 <= i < j < blocks.len(),
        !(blocks[i - 1].hash == blocks[j - 1].hash && blocks[i].hash == blocks[j].hash),
    ensures
        !links_hold(swapped(blocks, i, j)),
{
    let s = swapped(blocks, i, j);
    assert(blocks[i].prev_hash == blocks[i - 1].hash);
    assert(blocks[j].prev_hash == blocks[j - 1].hash);
    if links_hold(s) {
        assert(s[i] == blocks[j]);
        assert(s[i - 1] == blocks[i - 1]);
        assert(s[i].prev_hash == s[i - 1].hash);
        assert(blocks[j - 1].hash == blocks[i - 1].hash);
        if j == i + 1 {
            assert(s[j] == blocks[i]);
            assert(s[j].prev_hash == s[j - 1].hash);
        } else {
            assert(s[i + 1] == blocks[i + 1]);
            assert(s[i + 1].prev_hash == s[i].hash);
            assert(blocks[i + 1].prev_hash == blocks[i].hash);
        }
        assert(blocks[i].hash == blocks[j].hash);
        assert(false);
    }
}

} // verus!
