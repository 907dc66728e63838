//! How single characters of a text stand in its UTF-8 encoding.
use vstd::prelude::*;
use vstd::utf8::{
    char_is_scalar, char_u32_cast, encode_scalar, encode_utf8, encode_utf8_first_scalar,
    has_width_1_encoding,
};

verus! {

/// A text joined of two is encoded as the two encodings, joined.
pub proof fn lemma_encoding_of_joined(a: Seq<char>, b: Seq<char>)
    ensures
        encode_utf8(a + b) == encode_utf8(a) + encode_utf8(b),
    decreases a.len(),
{
    if a.len() == 0 {
        assert(a + b =~= b);
        assert(encode_utf8(a) + encode_utf8(b) =~= encode_utf8(b));
    } else {
        lemma_encoding_of_joined(a.drop_first(), b);
        assert((a + b).drop_first() =~= a.drop_first() + b);
        assert(encode_utf8(a + b) =~= encode_utf8(a) + encode_utf8(b));
    }
}

/// A text of one character has the encoding of that character.
proof fn lemma_encoding_of_one(c: char)
    ensures
        encode_utf8(seq![c]) == encode_scalar(c as u32),
{
    reveal_with_fuel(encode_utf8, 2);
    assert(encode_utf8(seq![c]) =~= encode_scalar(c as u32));
}

/// A carriage return is encoded as the one byte 13.
proof fn lemma_encoding_of_cr()
    ensures
        encode_utf8(seq!['\r']) == seq![13u8],
{
    lemma_encoding_of_one('\r');
    assert((13u32 & 0x7f) as u8 == 13u8) by (bit_vector);
}

/// An encoding that begins with the byte 10 is that of a text that begins with a line feed.
proof fn lemma_first_byte_of_line_feed(text: Seq<char>)
    requires
        encode_utf8(text).len() > 0,
        encode_utf8(text)[0] == 10,
    ensures
        text.len() > 0,
        text[0] == '\n',
{
    encode_utf8_first_scalar(text);
    assert((10u8 & 0x7f) as u32 == 10u32) by (bit_vector);
    char_u32_cast(text[0], 10);
    char_u32_cast('\n', 10);
}

/// An encoding that ends with the byte 10 is that of a text that ends with a line feed.
pub proof fn lemma_last_byte_of_line_feed(text: Seq<char>)
    requires
        encode_utf8(text).len() > 0,
        encode_utf8(text).last() == 10,
    ensures
        text.len() > 0,
        text.last() == '\n',
{
    let c = text.last();
    let scalar = c as u32;
    lemma_encoding_of_joined(text.drop_last(), seq![c]);
    lemma_encoding_of_one(c);
    assert(text.drop_last() + seq![c] =~= text);
    char_is_scalar(c);
    assert(encode_scalar(scalar).last() == 10);
    if has_width_1_encoding(scalar) {
        assert((scalar & 0x7f) as u8 == 10u8 ==> scalar == 10u32) by (bit_vector)
            requires
                scalar <= 0x7f,
        ;
        char_u32_cast(c, 10);
        char_u32_cast('\n', 10);
    } else {
        assert((0x80u8 | (scalar & 0x3f) as u8) != 10u8) by (bit_vector);
    }
}

/// Whether every byte 13 in `bytes` stands before a byte 10.
pub open spec fn returns_are_paired(bytes: Seq<u8>) -> bool {
    forall|i: int|
        0 <= i < bytes.len() && #[trigger] bytes[i] == 13 ==> i + 1 < bytes.len() && bytes[i + 1]
            == 10
}

/// If every byte 13 in an encoding stands before a byte 10, then every carriage return in the text
/// stands before a line feed.
pub proof fn lemma_paired_returns(text: Seq<char>, i: int)
    requires
        returns_are_paired(encode_utf8(text)),
        0 <= i < text.len(),
        text[i] == '\r',
    ensures
        i + 1 < text.len(),
        text[i + 1] == '\n',
{
    let front = text.take(i);
    let back = text.skip(i + 1);
    lemma_encoding_of_joined(front, seq!['\r']);
    lemma_encoding_of_joined(front + seq!['\r'], back);
    lemma_encoding_of_cr();
    assert(front + seq!['\r'] + back =~= text);
    let at = encode_utf8(front).len() as int;
    let bytes = encode_utf8(text);
    assert(bytes[at] == 13);
    assert(bytes[at + 1] == encode_utf8(back)[0]);
    lemma_first_byte_of_line_feed(back);
}

/// Nothing but the empty text is encoded as no bytes.
pub proof fn lemma_encoding_of_nothing(text: Seq<char>)
    ensures
        encode_utf8(text).len() == 0 <==> text.len() == 0,
{
    if text.len() > 0 {
        lemma_encoding_of_joined(seq![text[0]], text.skip(1));
        lemma_encoding_of_one(text[0]);
        assert(seq![text[0]] + text.skip(1) =~= text);
        char_is_scalar(text[0]);
        assert(encode_scalar(text[0] as u32).len() > 0);
    }
}

} // verus!
