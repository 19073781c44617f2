//! Tokens: single characters and words, and how a place moves over them.

use crate::lex::{ascii_string, end_of_file, peek, peek_at, word1};
use crate::parts::{fails, gives};
use crate::problem::SyntaxError;
use crate::region::{Col, Row};
use crate::state::{MadeProgress, NoProgress, Progress, StateView};
use crate::unicode::{lemma_first_char_encoded, lemma_first_char_of_text};
use vstd::prelude::*;
use vstd::utf8::encode_utf8;

verus! {

/// Two steps make progress where one of them does.
pub proof fn law_progress_or(first: Progress, second: Progress)
    ensures
        first.or(second) == MadeProgress <==> first == MadeProgress || second == MadeProgress,
{
}

/// A token takes its bytes off the front, and as many columns of the same line. It
/// must end in a column that can be counted.
pub proof fn law_advance(s: StateView, width: int)
    requires
        0 <= width <= s.bytes.len(),
    ensures
        s.column + width <= 0xffff ==> (s.advance(width) matches Ok(end) && {
            &&& end == s.skip(width)
            &&& end.bytes == s.bytes.skip(width)
            &&& end.line == s.line
            &&& end.column == s.column + width
            &&& end.indent_col == s.indent_col
        }),
        s.column + width > 0xffff ==> (s.advance(width) matches Err((NoProgress, e, end)) && e
            == SyntaxError::LineTooLong(s.line) && end == s),
{
}

/// What is not expected is the next columns of the line, where they can be counted.
pub proof fn law_unexpected(s: StateView, width: int)
    requires
        0 <= width,
    ensures
        s.column + width <= 0xffff ==> (s.unexpected(width) matches (
            NoProgress,
            SyntaxError::Unexpected(region),
            end,
        ) && {
            &&& region.start_line == s.line
            &&& region.end_line == s.line
            &&& region.start_col == s.column
            &&& region.end_col == s.column + width
            &&& end == s
        }),
        s.column + width > 0xffff ==> s.unexpected(width) == (
            NoProgress,
            SyntaxError::LineTooLong(s.line),
            s,
        ),
{
}

/// The character that comes next is the one whose UTF-8 form comes next.
pub proof fn law_peek(ch: char, rest: Seq<u8>)
    ensures
        peek(encode_utf8(seq![ch]) + rest) matches Ok((found, width)) && found == ch && width
            == encode_utf8(seq![ch]).len(),
{
    lemma_first_char_of_text(seq![ch], rest);
}

/// What comes some bytes behind the next one is what comes next there. Behind the end
/// of the input there is nothing.
pub proof fn law_peek_at(before: Seq<u8>, rest: Seq<u8>, offset: int)
    ensures
        peek_at(before + rest, before.len() as int) == peek(rest),
        offset > rest.len() ==> (peek_at(rest, offset) matches Err(e) && e is Eof),
{
    assert((before + rest).skip(before.len() as int) =~= rest);
}

/// No character comes next at the end of the input, and none where no UTF-8 form of
/// a character does.
pub proof fn law_peek_fails(bytes: Seq<u8>)
    ensures
        bytes.len() == 0 ==> (peek(bytes) matches Err(SyntaxError::Eof(region)) && region.start_line
            == 0 && region.end_line == 0 && region.start_col == 0 && region.end_col == 0),
        bytes.len() > 0 && (forall|ch: char|
            !(#[trigger] encode_utf8(seq![ch])).is_prefix_of(bytes)) ==> (peek(bytes) matches Err(e)
            && e is BadUtf8),
        peek(bytes) matches Ok((ch, width)) ==> encode_utf8(seq![ch]).is_prefix_of(bytes) && width
            == encode_utf8(seq![ch]).len(),
{
    lemma_first_char_encoded(bytes);
    if let Ok((ch, width)) = peek(bytes) {
        assert(bytes.take(width) =~= encode_utf8(seq![ch]));
    }
}

/// A byte that comes next is taken. Where another one does, or where it does not fit
/// its line, nothing is.
pub proof fn law_byte<E>(byte: u8, to_error: spec_fn(Row, Col) -> E, s: StateView)
    ensures
        s.bytes.len() > 0 && s.bytes[0] == byte && s.column < 0xffff ==> gives(
            word1(byte, to_error)(s),
            MadeProgress,
            (),
            s.skip(1),
        ),
        s.bytes.len() == 0 || s.bytes[0] != byte || s.column == 0xffff ==> fails(
            word1(byte, to_error)(s),
            NoProgress,
            to_error(s.line, s.column),
            s,
        ),
{
}

/// A word that comes next is taken, where it fits its line.
pub proof fn law_word(word: Seq<char>, rest: Seq<u8>, s: StateView)
    requires
        s.bytes == encode_utf8(word) + rest,
    ensures
        s.column + encode_utf8(word).len() <= 0xffff ==> (ascii_string(word)(s) matches Ok(
            (MadeProgress, _, end),
        ) && end.bytes == rest && end.line == s.line && end.column == s.column + encode_utf8(
            word,
        ).len() && end.indent_col == s.indent_col),
        s.column + encode_utf8(word).len() > 0xffff ==> fails(
            ascii_string(word)(s),
            NoProgress,
            SyntaxError::LineTooLong(s.line),
            s,
        ),
{
    let width = encode_utf8(word).len() as int;
    assert(s.bytes.take(width) =~= encode_utf8(word));
    assert(s.bytes.skip(width) =~= rest);
}

/// Where another word comes next, the columns that this one would take are the
/// complaint.
pub proof fn law_word_missing(word: Seq<char>, s: StateView)
    requires
        !encode_utf8(word).is_prefix_of(s.bytes),
        s.column + encode_utf8(word).len() <= 0xffff,
    ensures
        ascii_string(word)(s) matches Err((NoProgress, SyntaxError::Unexpected(region), end)) && {
            &&& region.start_line == s.line
            &&& region.end_line == s.line
            &&& region.start_col == s.column
            &&& region.end_col == s.column + encode_utf8(word).len()
            &&& end == s
        },
{
}

/// The end of the input comes next where no byte is left.
pub proof fn law_end_of_input(s: StateView)
    ensures
        s.bytes.len() == 0 ==> gives(end_of_file()(s), NoProgress, (), s),
        s.bytes.len() > 0 ==> fails(
            end_of_file()(s),
            NoProgress,
            SyntaxError::NotEndOfFile(s.line, s.column),
            s,
        ),
{
}

} // verus!
