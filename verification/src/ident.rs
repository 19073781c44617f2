//! Identifiers.

use crate::arena::{text_into_bump_str, text_of, text_push, text_with_capacity_in};
use crate::combine::{
    forward, lemma_advances_reflexive, lemma_advances_transitive, lemma_forward_advances, Grammar,
};
use crate::lex::{peek, peek_utf8_char};
use crate::problem::SyntaxError;
use crate::state::{
    advances, end_state, outcome, unexpected, MadeProgress, NoProgress, Outcome, OutcomeOf,
    ParseResult, Parser, State, StateView,
};
use crate::unicode::{
    first_char, is_ascii_digit, lemma_first_char_value, is_letter, is_lowercase_letter,
    is_uppercase_letter,
};
use bumpalo::Bump;
use vstd::prelude::*;

verus! {

/// The letters that an identifier can start with.
#[derive(Debug, Clone, Copy, PartialEq, Eq, Structural)]
pub enum Initial {
    Lowercase,
    Uppercase,
    Alphabetic,
}

impl Initial {
    pub open spec fn spec_accepts(self, ch: char) -> bool {
        match self {
            Initial::Lowercase => is_lowercase_letter(ch),
            Initial::Uppercase => is_uppercase_letter(ch),
            Initial::Alphabetic => is_letter(ch),
        }
    }

    #[verifier::when_used_as_spec(spec_accepts)]
    pub fn accepts(self, ch: char) -> (answer: bool)
        ensures
            answer == self.spec_accepts(ch),
    {
        match self {
            Initial::Lowercase => ch.is_lowercase(),
            Initial::Uppercase => ch.is_uppercase(),
            Initial::Alphabetic => ch.is_alphabetic(),
        }
    }
}

/// What an identifier goes on with: letters of any script and ASCII digits.
pub open spec fn continues_ident(ch: char) -> bool {
    is_letter(ch) || is_ascii_digit(ch)
}

pub(crate) fn char_continues_ident(ch: char) -> (answer: bool)
    ensures
        answer == continues_ident(ch),
{
    ch.is_alphabetic() || ('0' <= ch && ch <= '9')
}

/// The rest of an identifier that starts with the characters `found`. Where it
/// fails, the start of an identifier was there: that is progress.
pub open spec fn ident_rest(found: Seq<char>, s: StateView) -> Outcome<Seq<char>, SyntaxError>
    decreases s.bytes.len(),
{
    proof {
        lemma_peek_width(s.bytes);
    }
    if s.bytes.len() == 0 {
        Ok((MadeProgress, found, s))
    } else {
        match peek(s.bytes) {
            Ok((ch, width)) => if continues_ident(ch) {
                match s.advance(width) {
                    Ok(s1) => ident_rest(found.push(ch), s1),
                    Err((_, e, s1)) => Err((MadeProgress, e, s1)),
                }
            } else {
                Ok((MadeProgress, found, s))
            },
            Err(e) => Err((MadeProgress, e, s)),
        }
    }
}

/// An identifier with such an initial.
pub open spec fn ident(initial: Initial) -> Grammar<Seq<char>, SyntaxError> {
    |s: StateView|
        match peek(s.bytes) {
            Ok((ch, width)) => if initial.accepts(ch) {
                match s.advance(width) {
                    Ok(s1) => ident_rest(seq![ch], s1),
                    Err((progress, e, s1)) => Err((progress, e, s1)),
                }
            } else {
                let (progress, e, s1) = s.unexpected(0);
                Err((progress, e, s1))
            },
            Err(e) => Err((NoProgress, e, s)),
        }
}

/// Parses an identifier with such an initial.
pub fn parse_ident<'a>(arena: &'a Bump, state: State<'a>, initial: Initial) -> (result: ParseResult<
    'a,
    &'a str,
    SyntaxError,
>)
    ensures
        outcome(result) == ident(initial)(state@),
{
    let (first, width) = match peek_utf8_char(&state) {
        Ok(peeked) => peeked,
        Err(problem) => return Err((NoProgress, problem, state)),
    };
    if !initial.accepts(first) {
        return Err(unexpected(0, state));
    }
    let mut text = text_with_capacity_in(1, arena);
    text_push(&mut text, first);
    let mut at: State<'a> = match state.advance_without_indenting(width) {
        Ok(next) => next,
        Err(failure) => return Err(failure),
    };
    assert(text_of(text) =~= seq![first]);
    while at.bytes.len() > 0
        invariant
            ident(initial)(state@) == ident_rest(text_of(text), at@),
        decreases at.bytes@.len(),
    {
        match peek_utf8_char(&at) {
            Ok((ch, width)) => {
                if char_continues_ident(ch) {
                    text_push(&mut text, ch);
                    match at.advance_without_indenting(width) {
                        Ok(next) => {
                            at = next;
                        },
                        Err((_, problem, end)) => return Err((MadeProgress, problem, end)),
                    }
                } else {
                    return Ok((MadeProgress, text_into_bump_str(text), at));
                }
            },
            Err(problem) => return Err((MadeProgress, problem, at)),
        }
    }
    Ok((MadeProgress, text_into_bump_str(text), at))
}

/// Parses an identifier with such an initial.
#[derive(Debug, Clone, Copy)]
pub struct IdentParser {
    pub initial: Initial,
}

impl<'a> Parser<'a> for IdentParser {
    type Output = &'a str;

    type Error = SyntaxError;

    open spec fn spec_parse(&self, state: StateView) -> OutcomeOf<'a, Self> {
        ident(self.initial)(state)
    }

    proof fn lemma_advances(&self, state: StateView) {
        lemma_forward_ident(self.initial);
        lemma_forward_advances(ident(self.initial), state);
    }

    fn parse(&self, arena: &'a Bump, state: State<'a>) -> (result: ParseResult<
        'a,
        &'a str,
        SyntaxError,
    >) {
        parse_ident(arena, state, self.initial)
    }
}

/// An identifier that starts with a lowercase letter.
pub open spec fn lowercase_ident() -> Grammar<Seq<char>, SyntaxError> {
    ident(Initial::Lowercase)
}

/// An identifier that starts with an uppercase letter.
pub open spec fn uppercase_ident() -> Grammar<Seq<char>, SyntaxError> {
    ident(Initial::Uppercase)
}

/// An identifier that starts with any letter.
pub open spec fn unqualified_ident() -> Grammar<Seq<char>, SyntaxError> {
    ident(Initial::Alphabetic)
}

/// A character takes at least one of the bytes that it stands in.
pub proof fn lemma_peek_width(bytes: Seq<u8>)
    ensures
        peek(bytes) matches Ok((_, width)) ==> 1 <= width <= bytes.len(),
{
    reveal(first_char);
}

/// A dot takes one byte.
pub proof fn lemma_dot_width(bytes: Seq<u8>)
    ensures
        peek(bytes) matches Ok((ch, width)) ==> (ch == '.' ==> width == 1),
{
    reveal(first_char);
    lemma_first_char_value(bytes);
}

proof fn lemma_ident_rest_advances(found: Seq<char>, s: StateView)
    ensures
        advances(s, end_state(ident_rest(found, s))),
    decreases s.bytes.len(),
{
    lemma_advances_reflexive(s);
    lemma_peek_width(s.bytes);
    if s.bytes.len() > 0 {
        if let Ok((ch, width)) = peek(s.bytes) {
            if continues_ident(ch) && s.has_room(width) {
                let s1 = s.skip(width);
                lemma_ident_rest_advances(found.push(ch), s1);
                lemma_advances_transitive(s, s1, end_state(ident_rest(found.push(ch), s1)));
            }
        }
    }
}

pub broadcast proof fn lemma_forward_ident(initial: Initial)
    ensures
        #[trigger] forward(ident(initial)),
{
    reveal(forward);
    assert forall|s: StateView| advances(s, end_state(#[trigger] ident(initial)(s))) by {
        lemma_advances_reflexive(s);
        lemma_peek_width(s.bytes);
        if let Ok((ch, width)) = peek(s.bytes) {
            if initial.accepts(ch) && s.has_room(width) {
                let s1 = s.skip(width);
                lemma_ident_rest_advances(seq![ch], s1);
                lemma_advances_transitive(s, s1, end_state(ident_rest(seq![ch], s1)));
            }
        }
    }
}

} // verus!
