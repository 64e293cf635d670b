//! Byte offsets of character positions in UTF-8 encoded text.
use vstd::prelude::*;

use vstd::utf8::{
    decode_utf8, encode_utf8, encode_utf8_decode_utf8, encode_utf8_first_scalar,
    encode_utf8_valid_utf8, is_char_boundary, length_of_first_scalar, pop_first_scalar,
    valid_utf8,
};

verus! {

/// The encoding of a concatenation is the concatenation of the encodings.
pub proof fn lemma_encode_concat(a: Seq<char>, b: Seq<char>)
    ensures
        encode_utf8(a + b) == encode_utf8(a) + encode_utf8(b),
    decreases a.len(),
{
    if a.len() == 0 {
        assert(a + b =~= b);
        assert(encode_utf8(a) =~= Seq::<u8>::empty());
        assert(encode_utf8(a) + encode_utf8(b) =~= encode_utf8(b));
    } else {
        assert((a + b).drop_first() =~= a.drop_first() + b);
        assert((a + b)[0] == a[0]);
        lemma_encode_concat(a.drop_first(), b);
        assert(encode_utf8(a + b) =~= encode_utf8(a) + encode_utf8(b));
    }
}

/// The end of the encoding of a prefix is a character boundary of the whole encoding.
pub proof fn lemma_prefix_boundary(a: Seq<char>, b: Seq<char>)
    ensures
        valid_utf8(encode_utf8(a + b)),
        is_char_boundary(encode_utf8(a + b), encode_utf8(a).len() as int),
    decreases a.len(),
{
    encode_utf8_valid_utf8(a + b);
    lemma_encode_concat(a, b);
    if a.len() > 0 {
        let s = a + b;
        let bytes = encode_utf8(s);
        encode_utf8_first_scalar(s);
        encode_utf8_first_scalar(a);
        assert(s[0] == a[0]);
        assert(pop_first_scalar(bytes) =~= encode_utf8(s.drop_first()));
        assert(s.drop_first() =~= a.drop_first() + b);
        lemma_prefix_boundary(a.drop_first(), b);
        lemma_encode_concat(a.drop_first(), b);
        assert(encode_utf8(a).len() == length_of_first_scalar(bytes) + encode_utf8(a.drop_first()).len());
    }
}

/// Decoding what follows the encoding of the first `k` characters gives the characters after
/// them.
pub proof fn lemma_decode_after_prefix(s: Seq<char>, k: int)
    requires
        0 <= k <= s.len(),
    ensures
        is_char_boundary(encode_utf8(s), encode_utf8(s.take(k)).len() as int),
        encode_utf8(s.take(k)).len() <= encode_utf8(s).len(),
        decode_utf8(
            encode_utf8(s).subrange(encode_utf8(s.take(k)).len() as int, encode_utf8(s).len() as int),
        ) == s.skip(k),
{
    assert(s.take(k) + s.skip(k) =~= s);
    lemma_prefix_boundary(s.take(k), s.skip(k));
    lemma_encode_concat(s.take(k), s.skip(k));
    let whole = encode_utf8(s);
    let head = encode_utf8(s.take(k));
    assert(whole.subrange(head.len() as int, whole.len() as int) =~= encode_utf8(s.skip(k)));
    encode_utf8_decode_utf8(s.skip(k));
}

} // verus!
