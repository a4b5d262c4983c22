//! Bytes and text: scanning a byte string for a separator, and the facts
//! about UTF-8 that the log format rests on.

use vstd::prelude::*;
use vstd::slice::*;
use vstd::utf8::*;

verus! {

/// The byte that ends a line of the log.
pub const NEWLINE: u8 = 0x0A;

/// The byte that separates the fields of a line.
pub const SPACE: u8 = 0x20;

/// The index of the first `byte` in `bytes`, or the length of `bytes` where
/// it holds none.
pub open spec fn find_byte(bytes: Seq<u8>, byte: u8) -> int
    decreases bytes.len(),
{
    if bytes.len() == 0 || bytes[0] == byte {
        0
    } else {
        1 + find_byte(bytes.drop_first(), byte)
    }
}

/// What [`find_byte`] returns lies within `bytes`, points at `byte` unless it
/// is the length, and has no `byte` in front of it.
pub proof fn lemma_find_byte(bytes: Seq<u8>, byte: u8)
    ensures
        0 <= find_byte(bytes, byte) <= bytes.len(),
        find_byte(bytes, byte) < bytes.len() ==> bytes[find_byte(bytes, byte)] == byte,
        forall|i: int| 0 <= i < find_byte(bytes, byte) ==> bytes[i] != byte,
    decreases bytes.len(),
{
    if bytes.len() == 0 || bytes[0] == byte {
    } else {
        let rest = bytes.drop_first();
        lemma_find_byte(rest, byte);
        assert forall|i: int| 0 <= i < find_byte(bytes, byte) implies bytes[i] != byte by {
            if i > 0 {
                assert(rest[i - 1] == bytes[i]);
            }
        }
    }
}

/// An index with no `byte` in front of it, which points at `byte` or is the
/// length of `bytes`, is what [`find_byte`] returns.
pub proof fn lemma_find_byte_at(bytes: Seq<u8>, byte: u8, at: int)
    requires
        0 <= at <= bytes.len(),
        at < bytes.len() ==> bytes[at] == byte,
        forall|i: int| 0 <= i < at ==> bytes[i] != byte,
    ensures
        find_byte(bytes, byte) == at,
    decreases bytes.len(),
{
    if at == 0 {
    } else {
        let rest = bytes.drop_first();
        assert(bytes[0] != byte);
        assert forall|i: int| 0 <= i < at - 1 implies rest[i] != byte by {
            assert(rest[i] == bytes[i + 1]);
        }
        lemma_find_byte_at(rest, byte, at - 1);
    }
}

/// Looks for the first `byte` in `bytes` at or after `from`.
pub fn find(bytes: &[u8], from: usize, byte: u8) -> (at: usize)
    requires
        from <= bytes@.len(),
    ensures
        from <= at <= bytes@.len(),
        at == from + find_byte(bytes@.skip(from as int), byte),
{
    let n = bytes.len();
    let mut at = from;
    while at < n && bytes[at] != byte
        invariant
            n == bytes@.len(),
            from <= at <= n,
            forall|i: int| from <= i < at ==> bytes@[i] != byte,
        decreases n - at,
    {
        at += 1;
    }
    proof {
        let tail = bytes@.skip(from as int);
        assert forall|i: int| 0 <= i < at - from implies tail[i] != byte by {
            assert(tail[i] == bytes@[from + i]);
        }
        lemma_find_byte_at(tail, byte, at - from);
    }
    at
}

/// What the encoding of one scalar value looks like: an ASCII value is its
/// own single byte, and no byte of any other encoding is an ASCII byte.
pub proof fn lemma_encode_scalar(scalar: u32)
    requires
        is_scalar(scalar),
    ensures
        encode_scalar(scalar).len() >= 1,
        scalar < 0x80 ==> encode_scalar(scalar) == seq![scalar as u8],
        scalar >= 0x80 ==> forall|i: int|
            0 <= i < encode_scalar(scalar).len() ==> encode_scalar(scalar)[i] >= 0x80,
{
    if has_width_1_encoding(scalar) {
        assert((scalar & 0x7F) as u8 == scalar as u8) by (bit_vector)
            requires
                scalar <= 0x7F,
        ;
        assert(encode_scalar(scalar) =~= seq![scalar as u8]);
    } else {
        assert(0xC0u8 | ((scalar >> 6) & 0x1F) as u8 >= 0x80) by (bit_vector);
        assert(0xE0u8 | ((scalar >> 12) & 0x0F) as u8 >= 0x80) by (bit_vector);
        assert(0xF0u8 | ((scalar >> 18) & 0x7) as u8 >= 0x80) by (bit_vector);
        assert(0x80u8 | (scalar & 0x3F) as u8 >= 0x80) by (bit_vector);
        assert(0x80u8 | ((scalar >> 6) & 0x3F) as u8 >= 0x80) by (bit_vector);
        assert(0x80u8 | ((scalar >> 12) & 0x3F) as u8 >= 0x80) by (bit_vector);
    }
}

/// Two ASCII characters are the same character exactly when they are the
/// same byte.
pub proof fn lemma_ascii_char(a: char, b: char)
    requires
        (a as u32) < 0x80,
        (b as u32) < 0x80,
    ensures
        (a as u32) as u8 == a as u8,
        (b as u32) as u8 == b as u8,
        a as u8 == b as u8 <==> a == b,
{
    char_u32_cast(a, a as u32);
    char_u32_cast(b, b as u32);
}

/// The encoding of a text is the encoding of its front followed by the
/// encoding of its back.
pub proof fn lemma_encode_utf8_concat(front: Seq<char>, back: Seq<char>)
    ensures
        encode_utf8(front + back) == encode_utf8(front) + encode_utf8(back),
    decreases front.len(),
{
    if front.len() == 0 {
        assert(front + back =~= back);
        assert(encode_utf8(front) + encode_utf8(back) =~= encode_utf8(back));
    } else {
        lemma_encode_utf8_concat(front.drop_first(), back);
        assert((front + back).drop_first() =~= front.drop_first() + back);
        assert(encode_utf8(front + back) =~= encode_utf8(front) + encode_utf8(back));
    }
}

/// An ASCII character that a text does not hold leaves no byte in the
/// text's encoding.
pub proof fn lemma_encoding_free_of(chars: Seq<char>, c: char)
    requires
        (c as u32) < 0x80,
        !chars.contains(c),
    ensures
        !encode_utf8(chars).contains(c as u8),
    decreases chars.len(),
{
    if chars.len() == 0 {
    } else {
        let first = chars[0] as u32;
        let head = encode_scalar(first);
        let rest = chars.drop_first();
        char_is_scalar(chars[0]);
        lemma_encode_scalar(first);
        assert(chars.contains(chars[0]));
        assert(!rest.contains(c)) by {
            if rest.contains(c) {
                let i = choose|i: int| 0 <= i < rest.len() && rest[i] == c;
                assert(chars[i + 1] == c);
            }
        }
        lemma_encoding_free_of(rest, c);
        let bytes = encode_utf8(chars);
        assert(bytes == head + encode_utf8(rest));
        if bytes.contains(c as u8) {
            let i = choose|i: int| 0 <= i < bytes.len() && bytes[i] == c as u8;
            if i < head.len() {
                assert(head[i] == c as u8);
                assert(first < 0x80);
                lemma_ascii_char(chars[0], c);
            } else {
                assert(encode_utf8(rest)[i - head.len()] == c as u8);
            }
        }
    }
}

/// An ASCII character that a text holds leaves its byte in the text's
/// encoding.
pub proof fn lemma_encoding_holds(chars: Seq<char>, c: char)
    requires
        (c as u32) < 0x80,
        chars.contains(c),
    ensures
        encode_utf8(chars).contains(c as u8),
    decreases chars.len(),
{
    let head = encode_scalar(chars[0] as u32);
    let rest = chars.drop_first();
    let bytes = encode_utf8(chars);
    char_is_scalar(chars[0]);
    lemma_encode_scalar(chars[0] as u32);
    assert(bytes == head + encode_utf8(rest));
    if chars[0] == c {
        lemma_ascii_char(c, c);
        assert(bytes[0] == c as u8);
    } else {
        let i = choose|i: int| 0 <= i < chars.len() && chars[i] == c;
        assert(rest[i - 1] == c);
        lemma_encoding_holds(rest, c);
        let j = choose|j: int| 0 <= j < encode_utf8(rest).len() && encode_utf8(rest)[j] == c as u8;
        assert(bytes[head.len() + j] == c as u8);
    }
}

/// Cutting well-formed UTF-8 at an ASCII byte leaves well-formed UTF-8 on
/// both sides of it.
pub proof fn lemma_split_at_ascii(bytes: Seq<u8>, at: int)
    requires
        valid_utf8(bytes),
        0 <= at < bytes.len(),
        bytes[at] < 0x80,
    ensures
        valid_utf8(bytes.take(at)),
        valid_utf8(bytes.skip(at + 1)),
{
    is_char_boundary_iff_not_is_continuation_byte(bytes, at);
    valid_utf8_split(bytes, at);
    let back = bytes.subrange(at, bytes.len() as int);
    assert(back[0] == bytes[at]);
    assert(valid_first_scalar(back));
    assert(pop_first_scalar(back) =~= bytes.skip(at + 1));
    assert(bytes.take(at) =~= bytes.subrange(0, at));
}

/// Whether a text can stand as one line of the log: it holds no newline.
pub open spec fn one_line(text: Seq<char>) -> bool {
    !text.contains('\n')
}

/// Whether `text` holds the ASCII character `c`.
pub fn holds(text: &str, c: char) -> (r: bool)
    requires
        (c as u32) < 0x80,
    ensures
        r == text@.contains(c),
{
    let bytes = text.as_bytes();
    let at = find(bytes, 0, c as u8);
    proof {
        assert(bytes@.skip(0) =~= bytes@);
        lemma_find_byte(bytes@, c as u8);
        if text@.contains(c) {
            lemma_encoding_holds(text@, c);
            let i = choose|i: int| 0 <= i < bytes@.len() && bytes@[i] == c as u8;
            assert(at <= i);
        } else {
            lemma_encoding_free_of(text@, c);
            if at < bytes@.len() {
                assert(bytes@.contains(bytes@[at as int]));
            }
        }
    }
    at < bytes.len()
}

/// Whether `text` can stand as one line of the log.
pub fn is_one_line(text: &str) -> (r: bool)
    ensures
        r == one_line(text@),
{
    !holds(text, '\n')
}

/// Reads `bytes` as UTF-8 text.
///
/// Calls `String::from_utf8`. The contract says what its documentation
/// says: the call succeeds exactly on well-formed UTF-8, and the string
/// then holds the characters that the bytes encode. Not proved.
#[verifier::external_body]
pub(crate) fn string_from_utf8(bytes: Vec<u8>) -> (text: Option<String>)
    ensures
        text is Some <==> valid_utf8(bytes@),
        text matches Some(t) ==> t@ == decode_utf8(bytes@),
{
    match String::from_utf8(bytes) {
        Ok(text) => Some(text),
        Err(_) => None,
    }
}

/// Reads the bytes of `bytes` from `from` up to `to` as UTF-8 text.
pub fn text_of(bytes: &[u8], from: usize, to: usize) -> (text: Option<String>)
    requires
        from <= to <= bytes@.len(),
    ensures
        text is Some <==> valid_utf8(bytes@.subrange(from as int, to as int)),
        text matches Some(t) ==> t@ == decode_utf8(bytes@.subrange(from as int, to as int)),
{
    string_from_utf8(slice_to_vec(slice_subrange(bytes, from, to)))
}

} // verus!
