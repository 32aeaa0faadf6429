//! The 64-bit digest cached in every interned value.

use std::hash::Hasher;
use rustc_hash::FxHasher;
use vstd::bytes::{spec_u64_to_le_bytes, u64_to_le_bytes};
use vstd::prelude::*;
use vstd::string::StrSliceExecFns;
use vstd::utf8::encode_utf8;

verus! {

/// The digest that a fresh `rustc_hash::FxHasher` reports after one `write`
/// of the given bytes. The hasher mixes the bytes in words of the width of a
/// pointer, so the digest is that of the build at hand.
pub uninterp spec fn fx_digest(bytes: Seq<u8>) -> u64;

/// Feeds `bytes` to a fresh `rustc_hash::FxHasher` in a single `write` and
/// returns what `finish` reports. The hasher starts from a fixed state and
/// reads nothing but the bytes, so the result is the digest of the bytes.
#[verifier::external_body]
fn fx_hash_bytes(bytes: &Vec<u8>) -> (h: u64)
    ensures
        h == fx_digest(bytes@),
{
    let mut hasher = FxHasher::default();
    hasher.write(bytes.as_slice());
    hasher.finish()
}

/// The little-endian bytes of a sequence of words, one word after the other.
pub open spec fn words_bytes(words: Seq<u64>) -> Seq<u8>
    decreases words.len(),
{
    if words.len() == 0 {
        Seq::empty()
    } else {
        words_bytes(words.drop_last()) + spec_u64_to_le_bytes(words.last())
    }
}

/// The digest of a value made of a constructor tag, integer fields and
/// trailing text: the words in little-endian order, then the text in UTF-8.
pub open spec fn digest(words: Seq<u64>, text: Seq<char>) -> u64 {
    fx_digest(words_bytes(words) + encode_utf8(text))
}

/// The low and the high half of a 128-bit number.
pub open spec fn low_word(x: u128) -> u64 {
    (x & 0xffff_ffff_ffff_ffff) as u64
}

pub open spec fn high_word(x: u128) -> u64 {
    (x >> 64) as u64
}

pub fn split_u128(x: u128) -> (r: (u64, u64))
    ensures
        r.0 == low_word(x),
        r.1 == high_word(x),
{
    assert(x & 0xffff_ffff_ffff_ffff <= 0xffff_ffff_ffff_ffff) by (bit_vector);
    assert(x >> 64 <= 0xffff_ffff_ffff_ffff) by (bit_vector);
    ((x & 0xffff_ffff_ffff_ffff) as u64, (x >> 64) as u64)
}

/// Computes `digest(words@, text@)`.
pub fn digest_of(words: &Vec<u64>, text: &str) -> (h: u64)
    ensures
        h == digest(words@, text@),
{
    let mut buf: Vec<u8> = Vec::new();
    let mut i: usize = 0;
    assert(words@.take(0) =~= Seq::<u64>::empty());
    while i < words.len()
        invariant
            i <= words.len(),
            buf@ == words_bytes(words@.take(i as int)),
        decreases words.len() - i,
    {
        let mut chunk = u64_to_le_bytes(words[i]);
        buf.append(&mut chunk);
        proof {
            let next = words@.take(i + 1);
            assert(next.drop_last() =~= words@.take(i as int));
            assert(next.last() == words@[i as int]);
        }
        i += 1;
    }
    assert(words@.take(words.len() as int) =~= words@);
    let mut tail = text.as_bytes_vec();
    buf.append(&mut tail);
    fx_hash_bytes(&buf)
}

/// Computes the digest of a value without text.
pub fn digest_of_words(words: &Vec<u64>) -> (h: u64)
    ensures
        h == digest(words@, Seq::empty()),
{
    proof {
        reveal_strlit("");
        assert(""@ =~= Seq::<char>::empty());
    }
    digest_of(words, "")
}

} // verus!
