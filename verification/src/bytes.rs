//! Writing 32-bit words into byte records.

use vstd::prelude::*;

verus! {

/// The order in which the four bytes of a 32-bit word are written.
#[derive(Clone, Copy, Debug, PartialEq, Eq, Structural)]
pub enum ByteOrder {
    /// Least significant byte first.
    Little,
    /// Most significant byte first.
    Big,
}

/// The four bytes of `word` in the given order.
pub open spec fn word_bytes(word: u32, order: ByteOrder) -> Seq<u8> {
    let b0 = (word as int % 0x100) as u8;
    let b1 = (word as int / 0x100 % 0x100) as u8;
    let b2 = (word as int / 0x1_0000 % 0x100) as u8;
    let b3 = (word as int / 0x100_0000) as u8;
    match order {
        ByteOrder::Little => seq![b0, b1, b2, b3],
        ByteOrder::Big => seq![b3, b2, b1, b0],
    }
}

/// The bytes of each word of `words` in turn.
pub open spec fn words_bytes(words: Seq<u32>, order: ByteOrder) -> Seq<u8>
    decreases words.len(),
{
    if words.len() == 0 {
        Seq::empty()
    } else {
        words_bytes(words.drop_last(), order) + word_bytes(words.last(), order)
    }
}

/// `count` zero bytes.
pub open spec fn zero_bytes(count: nat) -> Seq<u8> {
    Seq::new(count, |i: int| 0u8)
}

/// `buf` with the bytes from `at` on replaced by `part`.
pub open spec fn overwrite(buf: Seq<u8>, at: int, part: Seq<u8>) -> Seq<u8> {
    buf.subrange(0, at) + part + buf.subrange(at + part.len(), buf.len() as int)
}

/// A word sequence takes four bytes per word.
pub proof fn lemma_words_bytes_len(words: Seq<u32>, order: ByteOrder)
    ensures
        words_bytes(words, order).len() == 4 * words.len(),
    decreases words.len(),
{
    if words.len() > 0 {
        lemma_words_bytes_len(words.drop_last(), order);
    }
}

/// Writes `word` in the given byte order.
pub fn word_to_bytes(word: u32, order: ByteOrder) -> (bytes: [u8; 4])
    ensures
        bytes@ == word_bytes(word, order),
{
    let b0: u8 = (word % 0x100) as u8;
    let b1: u8 = (word / 0x100 % 0x100) as u8;
    let b2: u8 = (word / 0x1_0000 % 0x100) as u8;
    let b3: u8 = (word / 0x100_0000) as u8;
    match order {
        ByteOrder::Little => [b0, b1, b2, b3],
        ByteOrder::Big => [b3, b2, b1, b0],
    }
}

/// Copies `part` into `buf` from position `at` on.
pub fn put_bytes<const N: usize>(buf: &mut [u8; N], at: usize, part: &[u8])
    requires
        at + part@.len() <= N,
    ensures
        final(buf)@ == overwrite(old(buf)@, at as int, part@),
{
    let mut i: usize = 0;
    while i < part.len()
        invariant
            i <= part@.len(),
            at + part@.len() <= N,
            buf@ == overwrite(old(buf)@, at as int, part@.take(i as int)),
        decreases part@.len() - i,
    {
        buf[at + i] = part[i];
        i += 1;
        assert(buf@ =~= overwrite(old(buf)@, at as int, part@.take(i as int)));
    }
    assert(part@.take(i as int) =~= part@);
}

/// Writes the words of `words` into `buf` from position `at` on.
pub fn put_words<const N: usize>(buf: &mut [u8; N], at: usize, words: &[u32], order: ByteOrder)
    requires
        at + 4 * words@.len() <= N,
    ensures
        final(buf)@ == overwrite(old(buf)@, at as int, words_bytes(words@, order)),
{
    let mut i: usize = 0;
    while i < words.len()
        invariant
            i <= words@.len(),
            at + 4 * words@.len() <= N,
            buf@ == overwrite(old(buf)@, at as int, words_bytes(words@.take(i as int), order)),
        decreases words@.len() - i,
    {
        proof {
            lemma_words_bytes_len(words@.take(i as int), order);
        }
        let bytes = word_to_bytes(words[i], order);
        put_bytes(buf, at + 4 * i, bytes.as_slice());
        i += 1;
        proof {
            let done = words@.take(i as int);
            assert(done.drop_last() =~= words@.take(i - 1));
            assert(buf@ =~= overwrite(old(buf)@, at as int, words_bytes(done, order)));
        }
    }
    assert(words@.take(i as int) =~= words@);
}

/// Appends `part` to `data`.
pub(crate) fn extend_from_bytes(data: &mut Vec<u8>, part: &[u8])
    ensures
        final(data)@ == old(data)@ + part@,
{
    data.extend_from_slice(part);
    assert(data@ =~= old(data)@ + part@);
}

} // verus!
