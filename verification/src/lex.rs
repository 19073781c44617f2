//! Tokens: single bytes, keywords and the end of the input.

use crate::blankspace::{HASH, NEWLINE, SPACE};
use crate::combine::{forward, lemma_advances_reflexive, Grammar};
use crate::problem::SyntaxError;
use crate::region::{Col, Region, Row};
use crate::state::{
    advances, end_state, outcome, unexpected, MadeProgress, NoProgress, ParseResult, State,
    StateView,
};
use crate::unicode::{first_char, read_first_char};
use vstd::prelude::*;
use vstd::slice::slice_subrange;
use vstd::utf8::encode_utf8;

verus! {

/// The character that comes next and the number of bytes that it takes.
pub open spec fn peek(bytes: Seq<u8>) -> Result<(char, int), SyntaxError> {
    if bytes.len() == 0 {
        Err(SyntaxError::Eof(Region::zero()))
    } else {
        match first_char(bytes) {
            Some((ch, width)) => Ok((ch, width)),
            None => Err(SyntaxError::BadUtf8),
        }
    }
}

/// The character that comes `offset` bytes behind the next one. Behind the end of
/// the input there is none.
pub open spec fn peek_at(bytes: Seq<u8>, offset: int) -> Result<(char, int), SyntaxError> {
    if offset <= bytes.len() {
        peek(bytes.skip(offset))
    } else {
        Err(SyntaxError::Eof(Region::zero()))
    }
}

/// Looks at the character that comes next, without taking it.
pub fn peek_utf8_char<'a>(state: &State<'a>) -> (peeked: Result<(char, usize), SyntaxError>)
    ensures
        match peeked {
            Ok((ch, width)) => {
                &&& peek(state.bytes@) == Ok::<(char, int), SyntaxError>((ch, width as int))
                &&& 1 <= width <= 4
                &&& width <= state.bytes@.len()
            },
            Err(problem) => peek(state.bytes@) == Err::<(char, int), SyntaxError>(problem),
        },
{
    assert(state.bytes@.skip(0) =~= state.bytes@);
    peek_utf8_char_at(state, 0)
}

/// Looks at the character that comes `offset` bytes behind the next one,
/// without taking it.
pub fn peek_utf8_char_at<'a>(state: &State<'a>, offset: usize) -> (peeked: Result<
    (char, usize),
    SyntaxError,
>)
    ensures
        match peeked {
            Ok((ch, width)) => {
                &&& peek_at(state.bytes@, offset as int) == Ok::<(char, int), SyntaxError>(
                    (ch, width as int),
                )
                &&& 1 <= width <= 4
                &&& offset + width <= state.bytes@.len()
            },
            Err(problem) => peek_at(state.bytes@, offset as int) == Err::<
                (char, int),
                SyntaxError,
            >(problem),
        },
{
    if offset >= state.bytes.len() {
        return Err(SyntaxError::Eof(Region::zero()));
    }
    let bytes = slice_subrange(state.bytes, offset, state.bytes.len());
    assert(bytes@ =~= state.bytes@.skip(offset as int));
    match read_first_char(bytes) {
        Some(found) => Ok(found),
        None => Err(SyntaxError::BadUtf8),
    }
}

/// The byte `word`. A line that is full holds no further byte.
pub open spec fn word1<E>(word: u8, to_error: spec_fn(Row, Col) -> E) -> Grammar<(), E> {
    |s: StateView|
        if s.bytes.len() > 0 && s.bytes[0] == word && s.has_room(1) {
            Ok((MadeProgress, (), s.skip(1)))
        } else {
            Err((NoProgress, to_error(s.line, s.column), s))
        }
}

/// Parses the byte `word`.
pub fn parse_word1<'a>(state: State<'a>, word: u8) -> (result: ParseResult<'a, (), (Row, Col)>)
    ensures
        outcome(result) == word1(word, |row: Row, col: Col| (row, col))(state@),
{
    if state.bytes.len() > 0 && state.bytes[0] == word && state.column < Col::MAX {
        let bytes = slice_subrange(state.bytes, 1, state.bytes.len());
        assert(bytes@ =~= state.bytes@.skip(1));
        let end = State {
            bytes,
            line: state.line,
            column: state.column + 1,
            indent_col: state.indent_col,
        };
        Ok((MadeProgress, (), end))
    } else {
        Err((NoProgress, (state.line, state.column), state))
    }
}

/// The characters of `keyword`.
pub open spec fn ascii_string(keyword: Seq<char>) -> Grammar<(), SyntaxError> {
    |s: StateView|
        {
            let width = encode_utf8(keyword).len() as int;
            if encode_utf8(keyword).is_prefix_of(s.bytes) {
                match s.advance(width) {
                    Ok(s1) => Ok((MadeProgress, (), s1)),
                    Err((progress, e, s1)) => Err((progress, e, s1)),
                }
            } else {
                let (progress, e, s1) = s.unexpected(width);
                Err((progress, e, s1))
            }
        }
}

/// Whether `bytes` start with `prefix`.
fn starts_with(bytes: &[u8], prefix: &[u8]) -> (answer: bool)
    ensures
        answer == prefix@.is_prefix_of(bytes@),
{
    if prefix.len() > bytes.len() {
        return false;
    }
    let mut i: usize = 0;
    while i < prefix.len()
        invariant
            i <= prefix@.len() <= bytes@.len(),
            prefix@.subrange(0, i as int) == bytes@.subrange(0, i as int),
        decreases prefix@.len() - i,
    {
        if bytes[i] != prefix[i] {
            assert(prefix@[i as int] != bytes@.subrange(0, prefix@.len() as int)[i as int]);
            return false;
        }
        assert(prefix@.subrange(0, i + 1) =~= prefix@.subrange(0, i as int).push(
            prefix@[i as int],
        ));
        assert(bytes@.subrange(0, i + 1) =~= bytes@.subrange(0, i as int).push(bytes@[i as int]));
        i = i + 1;
    }
    assert(prefix@.subrange(0, prefix@.len() as int) =~= prefix@);
    true
}

/// Parses the characters of `keyword`.
pub fn parse_ascii_string<'a>(state: State<'a>, keyword: &str) -> (result: ParseResult<
    'a,
    (),
    SyntaxError,
>)
    ensures
        outcome(result) == ascii_string(keyword@)(state@),
{
    let expected = keyword.as_bytes();
    if starts_with(state.bytes, expected) {
        match state.advance_without_indenting(expected.len()) {
            Ok(end) => Ok((MadeProgress, (), end)),
            Err(failure) => Err(failure),
        }
    } else {
        Err(unexpected(expected.len(), state))
    }
}

/// A keyword may only stand before a space, a newline or a comment.
pub open spec fn ends_keyword(bytes: Seq<u8>) -> bool {
    bytes.len() > 0 && (bytes[0] == SPACE || bytes[0] == HASH || bytes[0] == NEWLINE)
}

/// The word `keyword`.
pub open spec fn keyword_e<E>(keyword: Seq<char>, to_error: spec_fn(Row, Col) -> E) -> Grammar<
    (),
    E,
> {
    |s: StateView|
        match ascii_string(keyword)(s) {
            Ok((_, _, s1)) if ends_keyword(s1.bytes) => Ok((MadeProgress, (), s1)),
            _ => Err((NoProgress, to_error(s.line, s.column), s)),
        }
}

/// Parses the word `keyword`.
pub fn parse_keyword<'a>(state: State<'a>, keyword: &str) -> (result: ParseResult<
    'a,
    (),
    (Row, Col),
>)
    ensures
        outcome(result) == keyword_e(keyword@, |row: Row, col: Col| (row, col))(state@),
{
    match parse_ascii_string(state, keyword) {
        Ok((_, _, end)) => {
            if end.bytes.len() > 0 && (end.bytes[0] == SPACE || end.bytes[0] == HASH || end.bytes[0]
                == NEWLINE) {
                Ok((MadeProgress, (), end))
            } else {
                Err((NoProgress, (state.line, state.column), state))
            }
        },
        Err(_) => Err((NoProgress, (state.line, state.column), state)),
    }
}

/// The end of the input.
pub open spec fn end_of_file() -> Grammar<(), SyntaxError> {
    |s: StateView|
        if s.bytes.len() == 0 {
            Ok((NoProgress, (), s))
        } else {
            Err((NoProgress, SyntaxError::NotEndOfFile(s.line, s.column), s))
        }
}

/// Parses the end of the input.
pub fn parse_end_of_file<'a>(state: State<'a>) -> (result: ParseResult<'a, (), SyntaxError>)
    ensures
        outcome(result) == end_of_file()(state@),
{
    if state.bytes.len() == 0 {
        Ok((NoProgress, (), state))
    } else {
        Err((NoProgress, SyntaxError::NotEndOfFile(state.line, state.column), state))
    }
}

pub broadcast proof fn lemma_forward_word1<E>(word: u8, to_error: spec_fn(Row, Col) -> E)
    ensures
        #[trigger] forward(word1(word, to_error)),
{
    reveal(forward);
    assert forall|s: StateView| advances(s, end_state(#[trigger] word1(word, to_error)(s))) by {
        lemma_advances_reflexive(s);
    }
}

pub broadcast proof fn lemma_forward_ascii_string(keyword: Seq<char>)
    ensures
        #[trigger] forward(ascii_string(keyword)),
{
    reveal(forward);
    assert forall|s: StateView| advances(s, end_state(#[trigger] ascii_string(keyword)(s))) by {
        lemma_advances_reflexive(s);
    }
}

pub broadcast proof fn lemma_forward_keyword<E>(
    keyword: Seq<char>,
    to_error: spec_fn(Row, Col) -> E,
)
    ensures
        #[trigger] forward(keyword_e(keyword, to_error)),
{
    reveal(forward);
    assert forall|s: StateView|
        advances(s, end_state(#[trigger] keyword_e(keyword, to_error)(s))) by {
        lemma_advances_reflexive(s);
        lemma_forward_ascii_string(keyword);
        assert(advances(s, end_state(ascii_string(keyword)(s))));
    }
}

pub broadcast proof fn lemma_forward_end_of_file()
    ensures
        #[trigger] forward(end_of_file()),
{
    reveal(forward);
    assert forall|s: StateView| advances(s, end_state(#[trigger] end_of_file()(s))) by {
        lemma_advances_reflexive(s);
    }
}

} // verus!
