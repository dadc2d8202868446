//! Words as the bytes that the machine holds them in.

use vstd::bytes::{spec_u64_from_le_bytes, spec_u64_to_le_bytes};
use vstd::endian::{endianness, Endian};
use vstd::prelude::*;

verus! {

/// The bytes of a word, in the order of the machine.
pub open spec fn native_bytes(word: u64) -> Seq<u8> {
    match endianness() {
        Endian::Little => spec_u64_to_le_bytes(word),
        Endian::Big => spec_u64_to_le_bytes(word).reverse(),
    }
}

/// The word that eight bytes stand for, in the order of the machine.
pub open spec fn native_word(bytes: Seq<u8>) -> u64 {
    match endianness() {
        Endian::Little => spec_u64_from_le_bytes(bytes),
        Endian::Big => spec_u64_from_le_bytes(bytes.reverse()),
    }
}

/// The bytes of all words, one word after the other.
pub open spec fn words_bytes(words: Seq<u64>) -> Seq<u8>
    decreases words.len(),
{
    if words.len() == 0 {
        seq![]
    } else {
        words_bytes(words.drop_last()) + native_bytes(words.last())
    }
}

/// Calls `bytemuck::cast_slice`, from 64-bit words to bytes: the same memory seen as bytes, which
/// are those of each word in turn, in the order of the machine. It never fails in this direction.
#[verifier::external_body]
pub(crate) fn cast_words(words: &[u64]) -> (bytes: &[u8])
    ensures
        bytes@ == words_bytes(words@),
{
    bytemuck::cast_slice::<u64, u8>(words)
}

/// Calls `u64::from_ne_bytes` of the standard library: the word that the bytes stand for in the
/// order of the machine.
#[verifier::external_body]
pub(crate) fn word_from_native(bytes: [u8; 8]) -> (word: u64)
    ensures
        word == native_word(bytes@),
{
    u64::from_ne_bytes(bytes)
}

/// A word is read back from its bytes.
pub proof fn law_word_read_back(word: u64)
    ensures
        native_bytes(word).len() == 8,
        native_word(native_bytes(word)) == word,
{
    vstd::bytes::lemma_auto_spec_u64_to_from_le_bytes();
    let little = spec_u64_to_le_bytes(word);
    assert(little.reverse().reverse() =~= little);
}

/// The bytes of a word are read back from the word.
pub proof fn law_bytes_read_back(bytes: Seq<u8>)
    requires
        bytes.len() == 8,
    ensures
        native_bytes(native_word(bytes)) == bytes,
{
    vstd::bytes::lemma_auto_spec_u64_to_from_le_bytes();
    assert(bytes.reverse().reverse() =~= bytes);
}

/// Each word is read back from its place among the bytes of all words.
pub proof fn law_words_read_back(words: Seq<u64>, i: int)
    requires
        0 <= i < words.len(),
    ensures
        words_bytes(words).len() == 8 * words.len(),
        native_word(words_bytes(words).subrange(8 * i, 8 * i + 8)) == words[i],
    decreases words.len(),
{
    let rest = words.drop_last();
    let last = native_bytes(words.last());
    law_word_read_back(words.last());
    lemma_words_bytes_len(rest);
    if i < rest.len() {
        law_words_read_back(rest, i);
        assert(words_bytes(words).subrange(8 * i, 8 * i + 8) =~= words_bytes(rest).subrange(
            8 * i,
            8 * i + 8,
        ));
    } else {
        assert(words_bytes(words).subrange(8 * i, 8 * i + 8) =~= last);
    }
}

/// Words take eight bytes each.
proof fn lemma_words_bytes_len(words: Seq<u64>)
    ensures
        words_bytes(words).len() == 8 * words.len(),
    decreases words.len(),
{
    if words.len() > 0 {
        law_word_read_back(words.last());
        lemma_words_bytes_len(words.drop_last());
    }
}

} // verus!
