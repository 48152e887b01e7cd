//! The content digest of a block: SHA3-256 over a textual rendering of the
//! block's fields, written as 64 lowercase hex characters.
//!
//! The hash function, the hex encoder and the quoted rendering of a string
//! come from outside this crate; what is assumed of each is stated on the
//! item that calls it. Everything around them is verified.

use sha3::Digest;
use vstd::prelude::*;
use vstd::string::*;
use vstd::utf8::encode_utf8;

use crate::decimal::{decimal, lemma_decimal_digits, lemma_decimal_injective, push_decimal};

verus! {

/// Number of bytes in a SHA3-256 digest.
pub const DIGEST_LEN: usize = 32;

/// Number of hex characters in an encoded digest.
pub const DIGEST_HEX_LEN: usize = 64;

/// The SHA3-256 digest of the byte string `message`.
pub uninterp spec fn sha3_256_of(message: Seq<u8>) -> Seq<u8>;

/// The rendering that `{:?}` gives for the string `text`: the text between
/// double quotes, with quotes, backslashes, control characters and what the
/// Unicode tables class as non-printing written as escapes.
pub uninterp spec fn debug_quoted(text: Seq<char>) -> Seq<char>;

/// The lowercase hex digit of a value below sixteen.
pub open spec fn hex_digit(nibble: u8) -> char
    recommends
        nibble < 16,
{
    if nibble < 10 {
        (('0' as u8) + nibble) as char
    } else {
        (('a' as u8) + (nibble - 10) as u8) as char
    }
}

/// Lowercase hex encoding: two digits per byte, high nibble first.
pub open spec fn hex_lower(bytes: Seq<u8>) -> Seq<char> {
    Seq::new(
        2 * bytes.len(),
        |i: int|
            if i % 2 == 0 {
                hex_digit(bytes[i / 2] >> 4)
            } else {
                hex_digit(bytes[i / 2] & 0x0f)
            },
    )
}

/// Whether `c` is one of `0`-`9` or `a`-`f`.
pub open spec fn is_lower_hex(c: char) -> bool {
    ('0' <= c && c <= '9') || ('a' <= c && c <= 'f')
}

/// Every character of a hex encoding is a lowercase hex digit.
pub proof fn lemma_hex_lower_alphabet(bytes: Seq<u8>)
    ensures
        hex_lower(bytes).len() == 2 * bytes.len(),
        forall|i: int| 0 <= i < hex_lower(bytes).len() ==> is_lower_hex(#[trigger] hex_lower(bytes)[i]),
{
    assert forall|i: int| 0 <= i < hex_lower(bytes).len() implies is_lower_hex(
        #[trigger] hex_lower(bytes)[i],
    ) by {
        let b = bytes[i / 2];
        assert((b >> 4) < 16 && (b & 0x0f) < 16) by (bit_vector);
    }
}

/// Different byte strings have different hex encodings.
pub proof fn lemma_hex_lower_injective(x: Seq<u8>, y: Seq<u8>)
    requires
        hex_lower(x) == hex_lower(y),
    ensures
        x == y,
{
    assert(hex_lower(x).len() == 2 * x.len());
    assert(hex_lower(y).len() == 2 * y.len());
    assert forall|k: int| 0 <= k < x.len() implies x[k] == y[k] by {
        let a = x[k];
        let b = y[k];
        assert(hex_lower(x)[2 * k] == hex_digit(a >> 4));
        assert(hex_lower(y)[2 * k] == hex_digit(b >> 4));
        assert(hex_lower(x)[2 * k + 1] == hex_digit(a & 0x0f));
        assert(hex_lower(y)[2 * k + 1] == hex_digit(b & 0x0f));
        assert((a >> 4) < 16 && (a & 0x0f) < 16 && (b >> 4) < 16 && (b & 0x0f) < 16)
            by (bit_vector);
        assert((a >> 4) == (b >> 4));
        assert((a & 0x0f) == (b & 0x0f));
        assert(a == b) by (bit_vector)
            requires
                (a >> 4) == (b >> 4),
                (a & 0x0f) == (b & 0x0f),
        ;
    }
    assert(x =~= y);
}

/// SHA3-256 of `message`, by `sha3::Sha3_256::digest`.
///
/// Assumed: the result is a function of the message bytes alone, and is 32
/// bytes long, the output size that the outside crate fixes for this hash.
#[verifier::external_body]
pub(crate) fn sha3_256(message: &[u8]) -> (sum: Vec<u8>)
    ensures
        sum@ == sha3_256_of(message@),
        sum@.len() == DIGEST_LEN,
{
    sha3::Sha3_256::digest(message).to_vec()
}

/// Lowercase hex of `bytes`, by `base16ct::lower::encode_string`.
///
/// Assumed: each byte becomes two characters, the high nibble first, with
/// `0`-`9` for values below ten and `a`-`f` above. The outside function
/// panics when twice the input length overflows, which `requires` rules out.
#[verifier::external_body]
pub(crate) fn encode_hex_lower(bytes: &[u8]) -> (text: String)
    requires
        bytes@.len() <= usize::MAX / 2,
    ensures
        text@ == hex_lower(bytes@),
{
    base16ct::lower::encode_string(bytes)
}

/// The `{:?}` rendering of `text`, by the standard formatter for `str`.
///
/// Assumed: the result is a function of the characters of `text` alone.
#[verifier::external_body]
pub(crate) fn quote_debug(text: &str) -> (quoted: String)
    ensures
        quoted@ == debug_quoted(text@),
{
    format!("{:?}", text)
}

/// The character that ends every numeral in the hashed text. No numeral
/// holds it, so a numeral can be told from what follows it.
pub open spec fn field_end() -> char {
    ':'
}

/// The decimal numeral of `n` followed by the end mark.
pub open spec fn numeral_field(n: nat) -> Seq<char> {
    decimal(n).push(field_end())
}

/// The text that is hashed for a block. It holds, in this order: the index,
/// the timestamp, the number of characters of the quoted predecessor hash,
/// the quoted predecessor hash, the nonce, and the quoted payload. Each
/// number is a decimal numeral with the end mark after it; the length before
/// the first string says where that string stops.
pub open spec fn content_layout(
    index: u64,
    timestamp: u128,
    prev_quoted: Seq<char>,
    nonce: u64,
    data_quoted: Seq<char>,
) -> Seq<char> {
    numeral_field(index as nat) + (numeral_field(timestamp as nat) + (numeral_field(
        prev_quoted.len(),
    ) + (prev_quoted + (numeral_field(nonce as nat) + data_quoted))))
}

/// A text that starts with a numeral and its end mark is read in one way
/// only: the number and the rest are determined.
pub proof fn lemma_numeral_field_parses(a: nat, rest_a: Seq<char>, b: nat, rest_b: Seq<char>)
    requires
        numeral_field(a) + rest_a == numeral_field(b) + rest_b,
    ensures
        a == b,
        rest_a == rest_b,
{
    let text_a = numeral_field(a) + rest_a;
    let text_b = numeral_field(b) + rest_b;
    let len_a = decimal(a).len() as int;
    let len_b = decimal(b).len() as int;
    lemma_decimal_digits(a);
    lemma_decimal_digits(b);
    assert(text_a[len_a] == field_end());
    assert(text_b[len_b] == field_end());
    if len_a < len_b {
        assert(text_b[len_a] == decimal(b)[len_a]);
        assert(false);
    }
    if len_b < len_a {
        assert(text_a[len_b] == decimal(a)[len_b]);
        assert(false);
    }
    assert(decimal(a) =~= text_a.subrange(0, len_a));
    assert(decimal(b) =~= text_b.subrange(0, len_b));
    lemma_decimal_injective(a, b);
    assert(rest_a =~= text_a.subrange(len_a + 1, text_a.len() as int));
    assert(rest_b =~= text_b.subrange(len_b + 1, text_b.len() as int));
}

/// A text that starts with a string of known length is read in one way
/// only: the string and the rest are determined.
pub proof fn lemma_measured_string_parses(
    a: Seq<char>,
    rest_a: Seq<char>,
    b: Seq<char>,
    rest_b: Seq<char>,
)
    requires
        a.len() == b.len(),
        a + rest_a == b + rest_b,
    ensures
        a == b,
        rest_a == rest_b,
{
    let text_a = a + rest_a;
    let text_b = b + rest_b;
    assert(a =~= text_a.subrange(0, a.len() as int));
    assert(b =~= text_b.subrange(0, b.len() as int));
    assert(rest_a =~= text_a.subrange(a.len() as int, text_a.len() as int));
    assert(rest_b =~= text_b.subrange(b.len() as int, text_b.len() as int));
}

/// The bytes that are hashed for a block: its text, with both strings
/// quoted, in UTF-8.
pub open spec fn hashed_bytes(
    index: u64,
    timestamp: u128,
    prev_hash: Seq<char>,
    nonce: u64,
    data: Seq<char>,
) -> Seq<u8> {
    encode_utf8(
        content_layout(index, timestamp, debug_quoted(prev_hash), nonce, debug_quoted(data)),
    )
}

/// The digest of a block's five hashed fields.
pub open spec fn block_digest(
    index: u64,
    timestamp: u128,
    prev_hash: Seq<char>,
    nonce: u64,
    data: Seq<char>,
) -> Seq<char> {
    hex_lower(sha3_256_of(hashed_bytes(index, timestamp, prev_hash, nonce, data)))
}

/// Whether `text` has the shape of an encoded digest.
pub open spec fn is_digest_text(text: Seq<char>) -> bool {
    &&& text.len() == DIGEST_HEX_LEN
    &&& forall|i: int| 0 <= i < text.len() ==> is_lower_hex(#[trigger] text[i])
}

/// Appends the decimal numeral of `n` and the end mark to `out`.
fn push_numeral_field(out: &mut String, n: u128)
    ensures
        final(out)@ == old(out)@ + numeral_field(n as nat),
{
    push_decimal(out, n);
    proof {
        reveal_strlit(":");
    }
    out.append(":");
    assert(out@ =~= old(out)@ + numeral_field(n as nat));
}

/// Lays out the text that is hashed for a block, from the two strings
/// already quoted.
pub fn render_content(
    index: u64,
    timestamp: u128,
    prev_quoted: &str,
    nonce: u64,
    data_quoted: &str,
) -> (content: String)
    ensures
        content@ == content_layout(index, timestamp, prev_quoted@, nonce, data_quoted@),
{
    let mut content = String::new();
    push_numeral_field(&mut content, index as u128);
    push_numeral_field(&mut content, timestamp);
    push_numeral_field(&mut content, prev_quoted.unicode_len() as u128);
    content.append(prev_quoted);
    push_numeral_field(&mut content, nonce as u128);
    content.append(data_quoted);
    assert(content@ =~= content_layout(index, timestamp, prev_quoted@, nonce, data_quoted@));
    content
}

} // verus!
