//! 16-bit samples as they lie in byte memory, in the byte order of the
//! running machine.

use vstd::endian::{endianness, Endian};
use vstd::prelude::*;

verus! {

#[verifier::external_type_specification]
#[verifier::external_body]
pub struct ExPodCastError(bytemuck::PodCastError);

/// The word that the bytes `b0`, `b1` spell when they lie in memory in this
/// order, on the machine that runs the code: its byte order is
/// `vstd::endian::endianness()`.
pub open spec fn word_of(b0: u8, b1: u8) -> u16 {
    match endianness() {
        Endian::Little => (b0 as int + 256 * (b1 as int)) as u16,
        Endian::Big => (b1 as int + 256 * (b0 as int)) as u16,
    }
}

/// The byte at offset `k` (0 or 1) of the word `w` as it lies in memory.
pub open spec fn word_byte(w: u16, k: int) -> u8 {
    let low = (w as int % 256) as u8;
    let high = (w as int / 256) as u8;
    match endianness() {
        Endian::Little => if k == 0 {
            low
        } else {
            high
        },
        Endian::Big => if k == 0 {
            high
        } else {
            low
        },
    }
}

/// The words that a byte sequence of even length spells.
pub open spec fn words_of(bytes: Seq<u8>) -> Seq<u16> {
    Seq::new((bytes.len() / 2) as nat, |i: int| word_of(bytes[2 * i], bytes[2 * i + 1]))
}

/// The bytes that a sequence of words occupies.
pub open spec fn bytes_of(words: Seq<u16>) -> Seq<u8> {
    Seq::new(2 * words.len(), |j: int| word_byte(words[j / 2], j % 2))
}

/// Reading back the two bytes of a word gives the word, and the bytes that
/// spell a word are the bytes of that word.
pub proof fn lemma_word_round_trip(w: u16, b0: u8, b1: u8)
    ensures
        word_of(word_byte(w, 0), word_byte(w, 1)) == w,
        word_byte(word_of(b0, b1), 0) == b0,
        word_byte(word_of(b0, b1), 1) == b1,
{
}

/// `words_of` and `bytes_of` are inverse to each other.
pub proof fn lemma_words_bytes_inverse(words: Seq<u16>, bytes: Seq<u8>)
    ensures
        words_of(bytes_of(words)) == words,
        bytes.len() % 2 == 0 ==> bytes_of(words_of(bytes)) == bytes,
{
    assert forall|i: int| 0 <= i < words.len() implies words_of(bytes_of(words))[i] == words[i] by {
        lemma_word_round_trip(words[i], 0, 0);
    }
    assert(words_of(bytes_of(words)) =~= words);
    if bytes.len() % 2 == 0 {
        assert forall|j: int| 0 <= j < bytes.len() implies bytes_of(words_of(bytes))[j]
            == bytes[j] by {
            let i = j / 2;
            lemma_word_round_trip(0, bytes[2 * i], bytes[2 * i + 1]);
        }
        assert(bytes_of(words_of(bytes)) =~= bytes);
    }
}

/// `u16::from_ne_bytes`: the word that two bytes spell in native order.
#[verifier::external_body]
pub(crate) fn ne_word(b0: u8, b1: u8) -> (w: u16)
    ensures
        w == word_of(b0, b1),
{
    u16::from_ne_bytes([b0, b1])
}

/// `u16::to_ne_bytes`: the two bytes of a word in native order.
#[verifier::external_body]
pub(crate) fn ne_bytes(w: u16) -> (b: [u8; 2])
    ensures
        b[0] == word_byte(w, 0),
        b[1] == word_byte(w, 1),
{
    w.to_ne_bytes()
}

/// `bytemuck::try_cast_slice` from bytes to words. It succeeds only on a
/// slice of even length whose address is a multiple of two, and then hands
/// out the same memory, read as native-order words. Whether it succeeds
/// depends on the address, of which nothing is claimed.
#[verifier::external_body]
pub(crate) fn cast_words<'a>(bytes: &'a [u8]) -> (r: Result<&'a [u16], bytemuck::PodCastError>)
    ensures
        r is Ok ==> bytes@.len() % 2 == 0 && r->Ok_0@ == words_of(bytes@),
{
    bytemuck::try_cast_slice(bytes)
}

/// `bytemuck::try_cast_slice_mut` from bytes to words: as `cast_words`, and
/// what is written through the words is what the bytes hold afterwards. On
/// failure the bytes are untouched.
#[verifier::external_body]
pub(crate) fn cast_words_mut<'a>(bytes: &'a mut [u8]) -> (r: Result<
    &'a mut [u16],
    bytemuck::PodCastError,
>)
    ensures
        r is Ok ==> old(bytes)@.len() % 2 == 0 && r->Ok_0@ == words_of(old(bytes)@),
        r is Ok ==> final(bytes)@ == bytes_of(final(r->Ok_0)@),
        r is Err ==> final(bytes)@ == old(bytes)@,
{
    bytemuck::try_cast_slice_mut(bytes)
}

} // verus!
