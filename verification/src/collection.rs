//! Bracketed lists.

use crate::ast::{views, List, Spaced, SpacedView};
use crate::blankspace::{lemma_forward_space0, parse_space0, space0_around_e, SPACE};
use crate::combine::{
    forward, grammar_of, group_forward, lemma_forward_advances, lemma_forward_parser, more,
    more_delimited, sep_by0, skip_first, skip_second, specialize, zero_or_more, Grammar,
};
use crate::lex::{lemma_forward_word1, parse_word1, word1};
use crate::problem::{BadInputError, ListProblem, SpaceProblem};
use crate::region::{Col, Located, Row};
use crate::state::{outcome, MadeProgress, NoProgress, ParseResult, Parser, Progress, State};
use bumpalo::Bump;
use vstd::prelude::*;

verus! {

/// An entry of a list, with the blank space around it.
pub open spec fn list_entry<A, E>(p: Grammar<Located<A>, E>, min_indent: Col) -> Grammar<
    Located<SpacedView<A>>,
    ListProblem<E>,
> {
    space0_around_e(
        specialize(|e: E, row: Row, col: Col| ListProblem::Entry(e, row, col), p),
        min_indent,
        |bad: BadInputError, row: Row, col: Col| ListProblem::Space(bad, row, col),
        |row: Row, col: Col| ListProblem::Indent(row, col),
    )
}

/// The byte behind an entry of a list.
pub open spec fn list_mark<E>(mark: u8) -> Grammar<(), ListProblem<E>> {
    word1(mark, |row: Row, col: Col| ListProblem::End(row, col))
}

/// A space behind the opening bracket of a list.
pub open spec fn list_space<E>() -> Grammar<(), ListProblem<E>> {
    word1(
        SPACE,
        |row: Row, col: Col| ListProblem::Space(BadInputError::LineTooLong, row, col),
    )
}

/// The byte `opening`, `entries`, and the byte `closing`. Spaces may stand behind
/// the opening bracket.
pub open spec fn bracketed<V, E>(
    opening: u8,
    entries: Grammar<V, ListProblem<E>>,
    closing: u8,
) -> Grammar<V, ListProblem<E>> {
    skip_first(
        word1(opening, |row: Row, col: Col| ListProblem::Start(row, col)),
        skip_first(zero_or_more(list_space()), skip_second(entries, list_mark(closing))),
    )
}

/// The byte `opening`, some `p`s with a `delimiter` between them, and the byte
/// `closing`. Spaces may stand between the brackets of an empty list; newlines
/// and comments may not.
#[verifier::opaque]
pub open spec fn collection_e<A, E>(
    opening: u8,
    p: Grammar<Located<A>, E>,
    delimiter: u8,
    closing: u8,
    min_indent: Col,
) -> Grammar<Seq<Located<SpacedView<A>>>, ListProblem<E>> {
    bracketed(opening, sep_by0(list_mark(delimiter), list_entry(p, min_indent)), closing)
}

fn list_space_problem<E>(problem: SpaceProblem) -> (list_problem: ListProblem<E>)
    ensures
        list_problem == (match problem {
            SpaceProblem::Space(bad, row, col) => ListProblem::<E>::Space(bad, row, col),
            SpaceProblem::Indent(row, col) => ListProblem::<E>::Indent(row, col),
        }),
{
    match problem {
        SpaceProblem::Space(bad, row, col) => ListProblem::Space(bad, row, col),
        SpaceProblem::Indent(row, col) => ListProblem::Indent(row, col),
    }
}

/// Parses an entry of a list.
pub fn parse_list_entry<'a, A: View, P: Parser<'a, Output = Located<A>>>(
    arena: &'a Bump,
    state: State<'a>,
    parser: &P,
    min_indent: Col,
) -> (result: ParseResult<'a, Located<Spaced<'a, A>>, ListProblem<P::Error>>)
    ensures
        outcome(result) == list_entry(grammar_of(*parser), min_indent)(state@),
{
    let (progress1, before, state1) = match parse_space0(arena, state, min_indent) {
        Ok(parsed) => parsed,
        Err((progress, problem, end)) => return Err((progress, list_space_problem(problem), end)),
    };
    let (progress2, entry, state2) = match parser.parse(arena, state1) {
        Ok(parsed) => parsed,
        Err((progress, problem, end)) => return Err(
            (
                progress1.or(progress),
                ListProblem::Entry(problem, end.line, end.column),
                state,
            ),
        ),
    };
    let (progress3, after, state3) = match parse_space0(arena, state2, min_indent) {
        Ok(parsed) => parsed,
        Err((progress, problem, _)) => return Err(
            (progress1.or(progress2.or(progress)), list_space_problem(problem), state),
        ),
    };
    let value = Spaced::Item(entry.value).with_spaces_after(arena, after).with_spaces_before(
        arena,
        before,
    );
    Ok((progress1.or(progress2.or(progress3)), Located { region: entry.region, value }, state3))
}

/// Takes the spaces behind the opening bracket of a list.
fn skip_list_spaces<'a, E>(state: State<'a>) -> (skipped: (Progress, State<'a>))
    ensures
        zero_or_more(list_space::<E>())(state@) matches Ok((progress, _, end)) && progress
            == skipped.0 && end == skipped.1@,
{
    let ghost space = list_space::<E>();
    let mut at: State<'a> = match parse_word1(state, SPACE) {
        Ok((_, _, next)) => next,
        Err(_) => return (NoProgress, state),
    };
    let ghost mut found = seq![()];
    let ghost start = at@;
    assert(found =~= seq![()]);
    loop
        invariant
            space == list_space::<E>(),
            space(state@) matches Ok((_, _, next)) && next == start,
            more(space, seq![()], start) == more(space, found, at@),
            at.bytes@.len() < state.bytes@.len(),
        decreases at.bytes@.len(),
    {
        match parse_word1(at, SPACE) {
            Ok((_, _, next)) => {
                proof {
                    found = found.push(());
                }
                at = next;
            },
            Err(_) => {
                return (MadeProgress, at);
            },
        }
    }
}

/// Parses the entries of a list, up to its closing bracket.
fn parse_entries<'a, A: View, P: Parser<'a, Output = Located<A>>>(
    arena: &'a Bump,
    state: State<'a>,
    parser: &P,
    delimiter: u8,
    min_indent: Col,
) -> (result: ParseResult<'a, List<'a, Located<Spaced<'a, A>>>, ListProblem<P::Error>>)
    ensures
        outcome(result) == sep_by0(
            list_mark(delimiter),
            list_entry(grammar_of(*parser), min_indent),
        )(state@),
{
    let ghost mark = list_mark::<P::Error>(delimiter);
    let ghost entry = list_entry(grammar_of(*parser), min_indent);
    let (first, mut at): (Located<Spaced<'a, A>>, State<'a>) = match parse_list_entry(
        arena,
        state,
        parser,
        min_indent,
    ) {
        Ok((_, first, next)) => (first, next),
        Err((progress, problem, end)) => {
            return match progress {
                MadeProgress => Err((MadeProgress, problem, end)),
                NoProgress => Ok((NoProgress, List::empty(arena), state)),
            };
        },
    };
    let mut entries: Vec<Located<Spaced<'a, A>>> = Vec::new();
    entries.push(first);
    assert(views(entries@) =~= seq![first@]);
    proof {
        lemma_forward_parser(*parser);
        lemma_forward_list_entry(grammar_of(*parser), min_indent);
    }
    loop
        invariant
            mark == list_mark::<P::Error>(delimiter),
            entry == list_entry(grammar_of(*parser), min_indent),
            forward(entry),
            sep_by0(mark, entry)(state@) == more_delimited(mark, entry, views(entries@), at@),
        decreases at.bytes@.len(),
    {
        match parse_word1(at, delimiter) {
            Ok((_, _, behind)) => {
                match parse_list_entry(arena, behind, parser, min_indent) {
                    Ok((_, next, end)) => {
                        proof {
                            lemma_forward_advances(entry, behind@);
                        }
                        let ghost found = views(entries@);
                        entries.push(next);
                        assert(views(entries@) =~= found.push(next@));
                        at = end;
                    },
                    Err((_, problem, end)) => {
                        return Err((MadeProgress, problem, end));
                    },
                }
            },
            Err(_) => {
                return Ok((MadeProgress, List::from_vec(arena, entries), at));
            },
        }
    }
}

/// Parses a bracketed list.
pub fn parse_collection<'a, A: View, P: Parser<'a, Output = Located<A>>>(
    arena: &'a Bump,
    state: State<'a>,
    opening: u8,
    parser: &P,
    delimiter: u8,
    closing: u8,
    min_indent: Col,
) -> (result: ParseResult<'a, List<'a, Located<Spaced<'a, A>>>, ListProblem<P::Error>>)
    ensures
        outcome(result) == collection_e(
            opening,
            grammar_of(*parser),
            delimiter,
            closing,
            min_indent,
        )(state@),
{
    proof {
        reveal(collection_e);
    }
    let state1 = match parse_word1(state, opening) {
        Ok((_, _, next)) => next,
        Err((_, (row, col), _)) => return Err((NoProgress, ListProblem::Start(row, col), state)),
    };
    let (_, state2) = skip_list_spaces::<P::Error>(state1);
    let (_, entries, state3) = match parse_entries(arena, state2, parser, delimiter, min_indent) {
        Ok(parsed) => parsed,
        Err((_, problem, _)) => return Err((MadeProgress, problem, state)),
    };
    match parse_word1(state3, closing) {
        Ok((_, _, end)) => Ok((MadeProgress, entries, end)),
        Err((_, (row, col), _)) => Err((MadeProgress, ListProblem::End(row, col), state)),
    }
}

pub broadcast proof fn lemma_forward_list_entry<A, E>(p: Grammar<Located<A>, E>, min_indent: Col)
    requires
        forward(p),
    ensures
        #[trigger] forward(list_entry(p, min_indent)),
{
    broadcast use {group_forward, lemma_forward_space0};

}

pub broadcast proof fn lemma_forward_collection<A, E>(
    opening: u8,
    p: Grammar<Located<A>, E>,
    delimiter: u8,
    closing: u8,
    min_indent: Col,
)
    requires
        forward(p),
    ensures
        #[trigger] forward(collection_e(opening, p, delimiter, closing, min_indent)),
{
    reveal(collection_e);
    broadcast use {group_forward, lemma_forward_word1, lemma_forward_list_entry};

}

} // verus!
