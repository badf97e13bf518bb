//! Big-endian helpers shared by the PDU and frame codecs.
use vstd::prelude::*;

verus! {

/// The more significant byte of a 16-bit word.
pub open spec fn high_byte(v: u16) -> u8 {
    (v / 256) as u8
}

/// The less significant byte of a 16-bit word.
pub open spec fn low_byte(v: u16) -> u8 {
    (v % 256) as u8
}

/// The network-order (big-endian) encoding of a 16-bit word.
pub open spec fn be_bytes(v: u16) -> Seq<u8> {
    seq![high_byte(v), low_byte(v)]
}

/// The 16-bit word whose big-endian encoding is `hi` followed by `lo`.
pub open spec fn be_word(hi: u8, lo: u8) -> u16 {
    (hi * 256 + lo) as u16
}

/// Reading back the bytes of a word gives the word.
pub proof fn lemma_be_word_of_bytes(v: u16)
    ensures
        be_word(high_byte(v), low_byte(v)) == v,
{
}

/// Splitting a word read from two bytes gives the two bytes back.
pub proof fn lemma_bytes_of_be_word(hi: u8, lo: u8)
    ensures
        high_byte(be_word(hi, lo)) == hi,
        low_byte(be_word(hi, lo)) == lo,
{
}

/// Splits a word into its two bytes, most significant first.
pub fn split_word(v: u16) -> (r: (u8, u8))
    ensures
        r.0 == high_byte(v),
        r.1 == low_byte(v),
{
    ((v / 256) as u8, (v % 256) as u8)
}

/// Joins two bytes, most significant first, into a word.
pub fn join_word(hi: u8, lo: u8) -> (r: u16)
    ensures
        r == be_word(hi, lo),
{
    (hi as u16) * 256 + (lo as u16)
}

} // verus!
