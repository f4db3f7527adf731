//! Byte-string helpers shared by the contracts: comparison and concatenation.

use vstd::prelude::*;

verus! {

/// The concatenation of a sequence of byte strings, in order.
pub open spec fn concat_all(parts: Seq<Seq<u8>>) -> Seq<u8>
    decreases parts.len(),
{
    if parts.len() == 0 {
        Seq::empty()
    } else {
        concat_all(parts.drop_last()) + parts.last()
    }
}

/// The byte strings of a sequence of 32-byte words.
pub open spec fn words_view(words: Seq<[u8; 32]>) -> Seq<Seq<u8>> {
    words.map_values(|w: [u8; 32]| w@)
}

/// Whether two byte strings are equal.
pub fn bytes_equal(a: &[u8], b: &[u8]) -> (equal: bool)
    ensures
        equal == (a@ == b@),
{
    if a.len() != b.len() {
        return false;
    }
    let mut i: usize = 0;
    while i < a.len()
        invariant
            a@.len() == b@.len(),
            i <= a@.len(),
            forall|j: int| 0 <= j < i ==> a@[j] == b@[j],
        decreases a@.len() - i,
    {
        if a[i] != b[i] {
            return false;
        }
        i = i + 1;
    }
    assert(a@ =~= b@);
    true
}

/// Appends the bytes of `tail` to `out`.
pub fn append_bytes(out: &mut Vec<u8>, tail: &[u8])
    ensures
        final(out)@ == old(out)@ + tail@,
{
    let mut i: usize = 0;
    while i < tail.len()
        invariant
            i <= tail@.len(),
            out@ == old(out)@ + tail@.subrange(0, i as int),
        decreases tail@.len() - i,
    {
        out.push(tail[i]);
        i = i + 1;
        assert(out@ =~= old(out)@ + tail@.subrange(0, i as int));
    }
    assert(tail@.subrange(0, tail@.len() as int) =~= tail@);
}

/// The concatenation of 32-byte words, in order.
pub fn concat_words(words: &Vec<[u8; 32]>) -> (flat: Vec<u8>)
    ensures
        flat@ == concat_all(words_view(words@)),
        flat@.len() == 32 * words@.len(),
{
    let mut flat: Vec<u8> = Vec::new();
    let mut i: usize = 0;
    while i < words.len()
        invariant
            i <= words@.len(),
            flat@ == concat_all(words_view(words@.subrange(0, i as int))),
            flat@.len() == 32 * i,
        decreases words@.len() - i,
    {
        let w: [u8; 32] = words[i];
        append_bytes(&mut flat, w.as_slice());
        proof {
            let pre = words@.subrange(0, i as int);
            let post = words@.subrange(0, i + 1);
            assert(words_view(post).drop_last() =~= words_view(pre));
            assert(words_view(post).last() == w@);
        }
        i = i + 1;
    }
    assert(words@.subrange(0, words@.len() as int) =~= words@);
    flat
}

/// The concatenation of 32-byte words is 32 bytes per word, and the `i`-th
/// 32-byte block of it is the `i`-th word.
pub proof fn lemma_concat_words(words: Seq<[u8; 32]>)
    ensures
        concat_all(words_view(words)).len() == 32 * words.len(),
        forall|i: int|
            0 <= i < words.len() ==> #[trigger] concat_all(words_view(words)).subrange(
                32 * i,
                32 * i + 32,
            ) == words[i]@,
    decreases words.len(),
{
    if words.len() > 0 {
        let pre = words.drop_last();
        lemma_concat_words(pre);
        assert(words_view(words).drop_last() =~= words_view(pre));
        let whole = concat_all(words_view(words));
        let head = concat_all(words_view(pre));
        assert(whole == head + words.last()@);
        assert forall|i: int| 0 <= i < words.len() implies #[trigger] whole.subrange(32 * i, 32 * i + 32)
            == words[i]@ by {
            if i < pre.len() {
                assert(whole.subrange(32 * i, 32 * i + 32) =~= head.subrange(32 * i, 32 * i + 32));
                assert(pre[i] == words[i]);
            } else {
                assert(whole.subrange(32 * i, 32 * i + 32) =~= words.last()@);
            }
        }
    }
}

} // verus!
