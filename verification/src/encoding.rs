//! UTF-8: the text that a byte string encodes, and the bytes of a text.

use vstd::prelude::*;

use vstd::utf8::{
    decode_utf8, encode_scalar, encode_utf8, has_width_1_encoding, leading_byte_width_1,
    valid_utf8,
};

verus! {

/// The text that a byte string encodes in UTF-8; `None` when it is not valid UTF-8.
pub closed spec fn utf8_text(bytes: Seq<u8>) -> Option<Seq<char>> {
    if valid_utf8(bytes) {
        Some(decode_utf8(bytes))
    } else {
        None
    }
}

/// The UTF-8 bytes of a text encode that text.
pub proof fn lemma_utf8_text_of_encoding(s: Seq<char>)
    ensures
        utf8_text(encode_utf8(s)) == Some(s),
{
    broadcast use vstd::utf8::encode_utf8_valid_utf8, vstd::utf8::encode_utf8_decode_utf8;

    assert(valid_utf8(encode_utf8(s)));
    assert(decode_utf8(encode_utf8(s)) == s);
}

/// The UTF-8 bytes of a text followed by a NUL are those of the text followed
/// by a zero byte.
pub proof fn lemma_encode_push_nul(s: Seq<char>)
    ensures
        encode_utf8(s.push('\0')) == encode_utf8(s).push(0u8),
    decreases s.len(),
{
    let t = s.push('\0');
    if s.len() == 0 {
        assert(has_width_1_encoding(0u32));
        assert(leading_byte_width_1(0u32) == 0u8) by (bit_vector);
        assert(t =~= seq!['\0']);
        assert(t[0] as u32 == 0u32);
        assert(t.drop_first() =~= Seq::<char>::empty());
        assert(encode_utf8(t.drop_first()) =~= Seq::<u8>::empty());
        assert(encode_scalar(0u32) =~= seq![0u8]);
        assert(encode_utf8(t) == encode_scalar(t[0] as u32) + encode_utf8(t.drop_first()));
        assert(encode_utf8(s) =~= Seq::<u8>::empty());
        assert(encode_utf8(t) =~= encode_utf8(s).push(0u8));
    } else {
        assert(t.drop_first() =~= s.drop_first().push('\0'));
        lemma_encode_push_nul(s.drop_first());
        assert(t[0] == s[0]);
        assert(encode_utf8(t) =~= encode_utf8(s).push(0u8));
    }
}

} // verus!
