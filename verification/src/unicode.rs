//! Characters: how they stand in UTF-8 bytes, and the classes that the grammar
//! tells apart.

use vstd::prelude::*;
use vstd::utf8::*;

verus! {

/// What `char::is_uppercase` answers of a character beyond ASCII: Unicode's
/// `Uppercase` property.
pub uninterp spec fn unicode_uppercase(ch: char) -> bool;

/// What `char::is_lowercase` answers of a character beyond ASCII: Unicode's
/// `Lowercase` property.
pub uninterp spec fn unicode_lowercase(ch: char) -> bool;

/// What `char::is_alphabetic` answers of a character beyond ASCII: Unicode's
/// `Alphabetic` property.
pub uninterp spec fn unicode_alphabetic(ch: char) -> bool;

/// `char::is_uppercase`: of the ASCII characters, `A` to `Z` have the property;
/// beyond them the answer depends on the character alone.
pub assume_specification[ char::is_uppercase ](ch: char) -> (answer: bool)
    ensures
        ch <= '\u{7f}' ==> answer == ('A' <= ch <= 'Z'),
        ch > '\u{7f}' ==> answer == unicode_uppercase(ch),
;

/// `char::is_lowercase`: of the ASCII characters, `a` to `z` have the property;
/// beyond them the answer depends on the character alone.
pub assume_specification[ char::is_lowercase ](ch: char) -> (answer: bool)
    ensures
        ch <= '\u{7f}' ==> answer == ('a' <= ch <= 'z'),
        ch > '\u{7f}' ==> answer == unicode_lowercase(ch),
;

/// `char::is_alphabetic`: of the ASCII characters, `A` to `Z` and `a` to `z` have
/// the property; beyond them the answer depends on the character alone.
pub assume_specification[ char::is_alphabetic ](ch: char) -> (answer: bool)
    ensures
        ch <= '\u{7f}' ==> answer == ('A' <= ch <= 'Z' || 'a' <= ch <= 'z'),
        ch > '\u{7f}' ==> answer == unicode_alphabetic(ch),
;

/// An uppercase letter of any script.
pub open spec fn is_uppercase_letter(ch: char) -> bool {
    if ch <= '\u{7f}' {
        'A' <= ch <= 'Z'
    } else {
        unicode_uppercase(ch)
    }
}

/// A lowercase letter of any script.
pub open spec fn is_lowercase_letter(ch: char) -> bool {
    if ch <= '\u{7f}' {
        'a' <= ch <= 'z'
    } else {
        unicode_lowercase(ch)
    }
}

/// A letter of any script.
pub open spec fn is_letter(ch: char) -> bool {
    if ch <= '\u{7f}' {
        'A' <= ch <= 'Z' || 'a' <= ch <= 'z'
    } else {
        unicode_alphabetic(ch)
    }
}

/// `char::from_u32`: exactly the Unicode scalar values are characters, and the
/// character keeps the value.
pub assume_specification[ char::from_u32 ](value: u32) -> (ch: Option<char>)
    ensures
        ch is Some <==> is_scalar(value),
        ch matches Some(c) ==> c as u32 == value,
;

/// The ASCII digits, and no other numerals.
pub open spec fn is_ascii_digit(ch: char) -> bool {
    '0' <= ch <= '9'
}

/// The character that `bytes` start with and the number of bytes that it takes,
/// or nothing where they do not start with the UTF-8 form of a character.
#[verifier::opaque]
pub open spec fn first_char(bytes: Seq<u8>) -> Option<(char, int)> {
    if valid_first_scalar(bytes) {
        Some((decode_first_scalar(bytes) as char, length_of_first_scalar(bytes)))
    } else {
        None
    }
}

/// Reads the character that `bytes` start with.
pub fn read_first_char(bytes: &[u8]) -> (found: Option<(char, usize)>)
    ensures
        found is Some <==> first_char(bytes@) is Some,
        found matches Some((ch, width)) ==> {
            &&& first_char(bytes@) == Some((ch, width as int))
            &&& 1 <= width <= 4
            &&& width <= bytes@.len()
        },
{
    proof {
        reveal(first_char);
    }
    let len: usize = bytes.len();
    if len == 0 {
        return None;
    }
    let b0: u8 = bytes[0];
    let (value, width): (u32, usize) = if b0 <= 0x7f {
        ((b0 & 0x7F) as u32, 1)
    } else if 0xc0 <= b0 && b0 <= 0xdf && len >= 2 && continues(bytes[1]) {
        ((((b0 & 0x1F) as u32) << 6) | ((bytes[1] & 0x3f) as u32), 2)
    } else if 0xe0 <= b0 && b0 <= 0xef && len >= 3 && continues(bytes[1]) && continues(bytes[2]) {
        (
            (((b0 & 0x0F) as u32) << 12) | (((bytes[1] & 0x3f) as u32) << 6) | ((bytes[2]
                & 0x3f) as u32),
            3,
        )
    } else if 0xf0 <= b0 && b0 <= 0xf7 && len >= 4 && continues(bytes[1]) && continues(bytes[2])
        && continues(bytes[3]) {
        (
            (((b0 & 0x07) as u32) << 18) | (((bytes[1] & 0x3f) as u32) << 12) | (((bytes[2]
                & 0x3f) as u32) << 6) | ((bytes[3] & 0x3f) as u32),
            4,
        )
    } else {
        return None;
    };
    assert(value == decode_first_codepoint(bytes@));
    if (width == 2 && value < 0x80) || (width == 3 && value < 0x800) || (width == 4 && (value
        < 0x10000 || value > 0x10ffff)) {
        return None;
    }
    proof {
        lemma_codepoint_bound(bytes@);
    }
    match char::from_u32(value) {
        Some(ch) => {
            proof {
                char_u32_cast(ch, value);
            }
            Some((ch, width))
        },
        None => None,
    }
}

fn continues(byte: u8) -> (answer: bool)
    ensures
        answer == is_continuation_byte(byte),
{
    0x80 <= byte && byte <= 0xbf
}

proof fn lemma_codepoint_bound(bytes: Seq<u8>)
    requires
        valid_leading_and_continuation_bytes_first_codepoint(bytes),
    ensures
        length_of_first_codepoint(bytes) == 1 ==> decode_first_codepoint(bytes) < 0x80,
        length_of_first_codepoint(bytes) == 2 ==> decode_first_codepoint(bytes) < 0x800,
        length_of_first_codepoint(bytes) == 3 ==> decode_first_codepoint(bytes) < 0x10000,
{
    let b0 = bytes[0];
    let b1 = bytes[1];
    let b2 = bytes[2];
    assert(((b0 & 0x7F) as u32) < 0x80) by (bit_vector);
    assert(((((b0 & 0x1F) as u32) << 6) | ((b1 & 0x3f) as u32)) < 0x800) by (bit_vector);
    assert(((((b0 & 0x0F) as u32) << 12) | (((b1 & 0x3f) as u32) << 6) | ((b2 & 0x3f) as u32))
        < 0x10000) by (bit_vector);
}

/// The first character has the value that the first bytes encode.
pub proof fn lemma_first_char_value(bytes: Seq<u8>)
    ensures
        first_char(bytes) matches Some((ch, _)) ==> ch as u32 == decode_first_scalar(bytes),
{
    reveal(first_char);
    if valid_first_scalar(bytes) {
        lemma_codepoint_bound(bytes);
        assert(is_scalar(decode_first_scalar(bytes)));
    }
}

/// What text starts with: its first character, and behind that the rest of it.
pub proof fn lemma_first_char_of_text(text: Seq<char>, rest: Seq<u8>)
    requires
        text.len() > 0,
    ensures
        ({
            let width = encode_utf8(seq![text[0]]).len() as int;
            let bytes = encode_utf8(text) + rest;
            &&& 1 <= width <= bytes.len()
            &&& first_char(bytes) == Some((text[0], width))
            &&& bytes.skip(width) == encode_utf8(text.skip(1)) + rest
            &&& encode_utf8(text) == encode_utf8(seq![text[0]]) + encode_utf8(text.skip(1))
        }),
{
    reveal(first_char);
    let scalar = encode_scalar(text[0] as u32);
    let bytes = encode_utf8(text) + rest;
    encode_utf8_first_scalar(text);
    assert(text.skip(1) =~= text.drop_first());
    lemma_encode_char(text[0]);
    assert(forall|i: int| 0 <= i < encode_utf8(text).len() ==> bytes[i] == encode_utf8(text)[i]);
    char_u32_cast(text[0], decode_first_scalar(bytes));
    assert(bytes.skip(scalar.len() as int) =~= encode_utf8(text.skip(1)) + rest);
}

/// The bytes of a character hold no newline, but for that character itself.
pub proof fn lemma_first_char_no_newline(bytes: Seq<u8>)
    ensures
        first_char(bytes) matches Some((ch, width)) ==> (ch != '\n' ==> forall|i: int|
            0 <= i < width ==> #[trigger] bytes[i] != 0x0a),
{
    reveal(first_char);
    lemma_first_char_value(bytes);
    assert((0x0au8 & 0x7F) as u32 == 0x0a) by (bit_vector);
}

/// A byte below 0x80 is a character of its own, whatever follows.
pub proof fn lemma_first_char_ascii(ch: char, rest: Seq<u8>)
    requires
        ch <= '\u{7f}',
    ensures
        encode_utf8(seq![ch]) == seq![ch as u8],
        first_char(seq![ch as u8] + rest) == Some((ch, 1int)),
        (seq![ch as u8] + rest).skip(1) == rest,
{
    is_ascii_chars_encode_utf8(seq![ch]);
    assert(encode_utf8(seq![ch]) =~= seq![ch as u8]);
    lemma_first_char_of_text(seq![ch], rest);
    assert((seq![ch as u8] + rest).skip(1) =~= rest);
}

proof fn lemma_encode_char(ch: char)
    ensures
        encode_utf8(seq![ch]) == encode_scalar(ch as u32),
{
    assert(seq![ch].drop_first() =~= Seq::<char>::empty());
    assert(encode_utf8(Seq::<char>::empty()) =~= Seq::<u8>::empty());
    assert(encode_utf8(seq![ch]) =~= encode_scalar(ch as u32));
}

/// Bytes that start with a character start with its UTF-8 form.
pub proof fn lemma_first_char_encoded(bytes: Seq<u8>)
    ensures
        first_char(bytes) matches Some((ch, width)) ==> {
            &&& 1 <= width <= bytes.len()
            &&& encode_utf8(seq![ch]).len() == width
            &&& bytes == encode_utf8(seq![ch]) + bytes.skip(width)
        },
{
    reveal(first_char);
    if let Some((ch, width)) = first_char(bytes) {
        let first = bytes.take(width);
        assert(forall|i: int| 0 <= i < width ==> first[i] == bytes[i]);
        assert(valid_first_scalar(first));
        assert(pop_first_scalar(first) =~= Seq::<u8>::empty());
        assert(valid_utf8(pop_first_scalar(first)));
        assert(valid_utf8(first));
        decode_utf8_first_scalar(first);
        assert(take_first_scalar(first) =~= first);
        lemma_encode_char(ch);
        assert(bytes =~= first + bytes.skip(width));
    }
}

/// `core::str::from_utf8`: exactly the valid UTF-8 bytes are text, and the text
/// is what they encode.
#[verifier::external_body]
pub(crate) fn read_text<'a>(bytes: &'a [u8]) -> (text: Option<&'a str>)
    ensures
        text is Some <==> valid_utf8(bytes@),
        text matches Some(t) ==> t@ == decode_utf8(bytes@),
{
    core::str::from_utf8(bytes).ok()
}

} // verus!
