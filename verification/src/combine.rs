//! How grammars are put together. A [`Grammar`] says what parsing gives from
//! each state; it is what the executable parsers are held to.

use crate::region::{Col, Located, Region, Row};
use crate::state::{
    advances, end_state, MadeProgress, NoProgress, Outcome, OutcomeOf, ParseResult, Parser,
    Progress, State, StateView,
};
use bumpalo::Bump;
use vstd::prelude::*;

verus! {

/// What parsing gives, for each state that it starts from.
pub type Grammar<V, E> = spec_fn(StateView) -> Outcome<V, E>;

/// What a parser parses.
pub open spec fn grammar_of<'a, P: Parser<'a>>(parser: P) -> Grammar<
    <P::Output as View>::V,
    P::Error,
> {
    |s: StateView| parser.spec_parse(s)
}

/// Nothing, with the given value.
pub open spec fn succeed<A, E>(value: A) -> Grammar<A, E> {
    |s: StateView| Ok((MadeProgress, value, s))
}

/// `p`, with `f` of its value.
pub open spec fn mapped<A, B, E>(p: Grammar<A, E>, f: spec_fn(A) -> B) -> Grammar<B, E> {
    |s: StateView|
        match p(s) {
            Ok((progress, a, s1)) => Ok((progress, f(a), s1)),
            Err((progress, e, s1)) => Err((progress, e, s1)),
        }
}

/// `p`, with `f` of its problem and of the place where `p` stopped.
pub open spec fn specialize<A, X, Y>(
    f: spec_fn(X, Row, Col) -> Y,
    p: Grammar<A, X>,
) -> Grammar<A, Y> {
    |s: StateView|
        match p(s) {
            Ok((progress, a, s1)) => Ok((progress, a, s1)),
            Err((progress, x, s1)) => Err((progress, f(x, s1.line, s1.column), s1)),
        }
}

/// `p`, with `f` of its problem.
pub open spec fn map_err<A, X, Y>(f: spec_fn(X) -> Y, p: Grammar<A, X>) -> Grammar<A, Y> {
    specialize(|x: X, row: Row, col: Col| f(x), p)
}

/// `p`, then what its value calls for. Where either fails, that is the failure.
pub open spec fn and_then<A, B, E>(
    p: Grammar<A, E>,
    f: spec_fn(A) -> Grammar<B, E>,
) -> Grammar<B, E> {
    |s: StateView|
        match p(s) {
            Ok((_, a, s1)) => f(a)(s1),
            Err((progress, e, s1)) => Err((progress, e, s1)),
        }
}

/// `p`, then `q`. Where `q` fails, the progress of `p` counts, and parsing goes
/// back to where it started.
pub open spec fn and<A, B, E>(p: Grammar<A, E>, q: Grammar<B, E>) -> Grammar<(A, B), E> {
    |s: StateView|
        match p(s) {
            Ok((progress1, a, s1)) => match q(s1) {
                Ok((progress2, b, s2)) => Ok((progress1.or(progress2), (a, b), s2)),
                Err((progress2, e, _)) => Err((progress1.or(progress2), e, s)),
            },
            Err((progress, e, s1)) => Err((progress, e, s1)),
        }
}

/// `p`, then `q`, with the value of `q`. Where either fails, parsing goes back
/// to where it started.
pub open spec fn skip_first<A, B, E>(p: Grammar<A, E>, q: Grammar<B, E>) -> Grammar<B, E> {
    |s: StateView|
        match and(p, q)(s) {
            Ok((progress, (_, b), s1)) => Ok((progress, b, s1)),
            Err((progress, e, _)) => Err((progress, e, s)),
        }
}

/// `p`, then `q`, with the value of `p`. Where either fails, parsing goes back
/// to where it started.
pub open spec fn skip_second<A, B, E>(p: Grammar<A, E>, q: Grammar<B, E>) -> Grammar<A, E> {
    |s: StateView|
        match and(p, q)(s) {
            Ok((progress, (a, _), s1)) => Ok((progress, a, s1)),
            Err((progress, e, _)) => Err((progress, e, s)),
        }
}

/// `p`, or nothing where `p` fails without progress.
pub open spec fn maybe<A, E>(p: Grammar<A, E>) -> Grammar<Option<A>, E> {
    |s: StateView|
        match p(s) {
            Ok((progress, a, s1)) => Ok((progress, Some(a), s1)),
            Err((MadeProgress, e, s1)) => Err((MadeProgress, e, s1)),
            Err((NoProgress, _, _)) => Ok((NoProgress, None, s)),
        }
}

/// `p`, or `q` where `p` fails without progress.
pub open spec fn one_of<A, E>(p: Grammar<A, E>, q: Grammar<A, E>) -> Grammar<A, E> {
    |s: StateView|
        match p(s) {
            Ok((progress, a, s1)) => Ok((progress, a, s1)),
            Err((MadeProgress, e, s1)) => Err((MadeProgress, e, s1)),
            Err((NoProgress, _, s1)) => q(s1),
        }
}

/// `p` as if it made no progress. Where it fails, parsing goes back to where it
/// started.
pub open spec fn backtrackable<A, E>(p: Grammar<A, E>) -> Grammar<A, E> {
    |s: StateView|
        match p(s) {
            Ok((_, a, s1)) => Ok((NoProgress, a, s1)),
            Err((_, e, _)) => Err((NoProgress, e, s)),
        }
}

/// The region between two states.
pub open spec fn region_between(start: StateView, end: StateView) -> Region {
    Region {
        start_line: start.line,
        end_line: end.line,
        start_col: start.column,
        end_col: end.column,
    }
}

/// `p`, with the region that it parsed.
pub open spec fn loc<A, E>(p: Grammar<A, E>) -> Grammar<Located<A>, E> {
    |s: StateView|
        match p(s) {
            Ok((progress, a, s1)) => Ok(
                (progress, Located { region: region_between(s, s1), value: a }, s1),
            ),
            Err((progress, e, s1)) => Err((progress, e, s1)),
        }
}

/// Measures the region between two states.
pub(crate) fn measure<'a>(start: State<'a>, end: State<'a>) -> (region: Region)
    ensures
        region == region_between(start@, end@),
{
    Region {
        start_line: start.line,
        end_line: end.line,
        start_col: start.column,
        end_col: end.column,
    }
}

/// Parses what another parser parses, with its region.
#[derive(Debug, Clone, Copy)]
pub struct LocParser<P>(pub P);

impl<'a, P: Parser<'a>> Parser<'a> for LocParser<P> {
    type Output = Located<P::Output>;

    type Error = P::Error;

    open spec fn spec_parse(&self, state: StateView) -> OutcomeOf<'a, Self> {
        loc(grammar_of(self.0))(state)
    }

    proof fn lemma_advances(&self, state: StateView) {
        lemma_forward_parser(self.0);
        lemma_forward_loc(grammar_of(self.0));
        lemma_forward_advances(loc(grammar_of(self.0)), state);
    }

    fn parse(&self, arena: &'a Bump, state: State<'a>) -> (result: ParseResult<
        'a,
        Located<P::Output>,
        P::Error,
    >) {
        match self.0.parse(arena, state) {
            Ok((progress, value, end)) => {
                let region = measure(state, end);
                Ok((progress, Located { region, value }, end))
            },
            Err(failure) => Err(failure),
        }
    }
}

/// The `p`s that follow the values `found`, up to where the next one fails
/// without progress. One that takes no byte is the last.
pub open spec fn more<A, E>(p: Grammar<A, E>, found: Seq<A>, s: StateView) -> Outcome<Seq<A>, E>
    decreases s.bytes.len(),
{
    match p(s) {
        Ok((_, a, s1)) => if s1.bytes.len() < s.bytes.len() {
            more(p, found.push(a), s1)
        } else {
            Ok((MadeProgress, found.push(a), s1))
        },
        Err((MadeProgress, e, s1)) => Err((MadeProgress, e, s1)),
        Err((NoProgress, _, s1)) => Ok((MadeProgress, found, s1)),
    }
}

/// As many `p`s as there are.
pub open spec fn zero_or_more<A, E>(p: Grammar<A, E>) -> Grammar<Seq<A>, E> {
    |s: StateView|
        match p(s) {
            Ok((_, a, s1)) => match more(p, seq![a], s1) {
                Ok((_, found, s2)) => Ok((Progress::between(s, s2), found, s2)),
                Err((progress, e, s2)) => Err((progress, e, s2)),
            },
            Err((MadeProgress, e, s1)) => Err((MadeProgress, e, s1)),
            Err((NoProgress, _, _)) => Ok((NoProgress, Seq::<A>::empty(), s)),
        }
}

/// The `p`s that follow the values `found`, each behind a `delimiter`. Behind a
/// delimiter there is a `p`. Where the two take no byte, that `p` is the last.
pub open spec fn more_delimited<A, D, E>(
    delimiter: Grammar<D, E>,
    p: Grammar<A, E>,
    found: Seq<A>,
    s: StateView,
) -> Outcome<Seq<A>, E>
    decreases s.bytes.len(),
{
    match delimiter(s) {
        Ok((_, _, s1)) => match p(s1) {
            Ok((_, a, s2)) => if s2.bytes.len() < s.bytes.len() {
                more_delimited(delimiter, p, found.push(a), s2)
            } else {
                Ok((MadeProgress, found.push(a), s2))
            },
            Err((_, e, s2)) => Err((MadeProgress, e, s2)),
        },
        Err((MadeProgress, e, s1)) => Err((MadeProgress, e, s1)),
        Err((NoProgress, _, s1)) => Ok((MadeProgress, found, s1)),
    }
}

/// As many `p`s as there are, with a `delimiter` between them.
pub open spec fn sep_by0<A, D, E>(delimiter: Grammar<D, E>, p: Grammar<A, E>) -> Grammar<
    Seq<A>,
    E,
> {
    |s: StateView|
        match p(s) {
            Ok((_, a, s1)) => more_delimited(delimiter, p, seq![a], s1),
            Err((MadeProgress, e, s1)) => Err((MadeProgress, e, s1)),
            Err((NoProgress, _, _)) => Ok((NoProgress, Seq::<A>::empty(), s)),
        }
}

/// Wherever it starts, the grammar only takes bytes off the front.
#[verifier::opaque]
pub open spec fn forward<A, E>(p: Grammar<A, E>) -> bool {
    forall|s: StateView| advances(s, end_state(#[trigger] p(s)))
}

/// A grammar that only goes forward does so from each state.
pub proof fn lemma_forward_advances<A, E>(p: Grammar<A, E>, s: StateView)
    requires
        forward(p),
    ensures
        advances(s, end_state(p(s))),
{
    reveal(forward);
}

pub proof fn lemma_advances_reflexive(s: StateView)
    ensures
        advances(s, s),
{
    assert(s.bytes.skip(0) =~= s.bytes);
}

pub proof fn lemma_advances_transitive(s: StateView, t: StateView, u: StateView)
    requires
        advances(s, t),
        advances(t, u),
    ensures
        advances(s, u),
{
    assert(u.bytes =~= s.bytes.skip(s.bytes.len() - u.bytes.len()));
}

pub broadcast proof fn lemma_forward_parser<'a, P: Parser<'a>>(parser: P)
    ensures
        #[trigger] forward(grammar_of(parser)),
{
    reveal(forward);
    assert forall|s: StateView| advances(s, end_state(#[trigger] grammar_of(parser)(s))) by {
        parser.lemma_advances(s);
    }
}

pub broadcast proof fn lemma_forward_succeed<A, E>(value: A)
    ensures
        #[trigger] forward(succeed::<A, E>(value)),
{
    reveal(forward);
    assert forall|s: StateView| advances(s, end_state(#[trigger] succeed::<A, E>(value)(s))) by {
        lemma_advances_reflexive(s);
    }
}

pub broadcast proof fn lemma_forward_mapped<A, B, E>(p: Grammar<A, E>, f: spec_fn(A) -> B)
    requires
        forward(p),
    ensures
        #[trigger] forward(mapped(p, f)),
{
    reveal(forward);
    assert forall|s: StateView| advances(s, end_state(#[trigger] mapped(p, f)(s))) by {
        assert(advances(s, end_state(p(s))));
    }
}

pub broadcast proof fn lemma_forward_specialize<A, X, Y>(
    f: spec_fn(X, Row, Col) -> Y,
    p: Grammar<A, X>,
)
    requires
        forward(p),
    ensures
        #[trigger] forward(specialize(f, p)),
{
    reveal(forward);
    assert forall|s: StateView| advances(s, end_state(#[trigger] specialize(f, p)(s))) by {
        assert(advances(s, end_state(p(s))));
    }
}

pub broadcast proof fn lemma_forward_and_then<A, B, E>(
    p: Grammar<A, E>,
    f: spec_fn(A) -> Grammar<B, E>,
)
    requires
        forward(p),
        forall|a: A| forward(#[trigger] f(a)),
    ensures
        #[trigger] forward(and_then(p, f)),
{
    reveal(forward);
    assert forall|s: StateView| advances(s, end_state(#[trigger] and_then(p, f)(s))) by {
        assert(advances(s, end_state(p(s))));
        if let Ok((_, a, s1)) = p(s) {
            assert(forward(f(a)));
            assert(advances(s1, end_state(f(a)(s1))));
            lemma_advances_transitive(s, s1, end_state(f(a)(s1)));
        }
    }
}

pub broadcast proof fn lemma_forward_and<A, B, E>(p: Grammar<A, E>, q: Grammar<B, E>)
    requires
        forward(p),
        forward(q),
    ensures
        #[trigger] forward(and(p, q)),
{
    reveal(forward);
    assert forall|s: StateView| advances(s, end_state(#[trigger] and(p, q)(s))) by {
        lemma_advances_reflexive(s);
        assert(advances(s, end_state(p(s))));
        if let Ok((_, a, s1)) = p(s) {
            assert(advances(s1, end_state(q(s1))));
            lemma_advances_transitive(s, s1, end_state(q(s1)));
        }
    }
}

pub broadcast proof fn lemma_forward_skip_first<A, B, E>(p: Grammar<A, E>, q: Grammar<B, E>)
    requires
        forward(p),
        forward(q),
    ensures
        #[trigger] forward(skip_first(p, q)),
{
    reveal(forward);
    lemma_forward_and(p, q);
    assert forall|s: StateView| advances(s, end_state(#[trigger] skip_first(p, q)(s))) by {
        lemma_advances_reflexive(s);
        assert(advances(s, end_state(and(p, q)(s))));
    }
}

pub broadcast proof fn lemma_forward_skip_second<A, B, E>(p: Grammar<A, E>, q: Grammar<B, E>)
    requires
        forward(p),
        forward(q),
    ensures
        #[trigger] forward(skip_second(p, q)),
{
    reveal(forward);
    lemma_forward_and(p, q);
    assert forall|s: StateView| advances(s, end_state(#[trigger] skip_second(p, q)(s))) by {
        lemma_advances_reflexive(s);
        assert(advances(s, end_state(and(p, q)(s))));
    }
}

pub broadcast proof fn lemma_forward_maybe<A, E>(p: Grammar<A, E>)
    requires
        forward(p),
    ensures
        #[trigger] forward(maybe(p)),
{
    reveal(forward);
    assert forall|s: StateView| advances(s, end_state(#[trigger] maybe(p)(s))) by {
        lemma_advances_reflexive(s);
        assert(advances(s, end_state(p(s))));
    }
}

pub broadcast proof fn lemma_forward_one_of<A, E>(p: Grammar<A, E>, q: Grammar<A, E>)
    requires
        forward(p),
        forward(q),
    ensures
        #[trigger] forward(one_of(p, q)),
{
    reveal(forward);
    assert forall|s: StateView| advances(s, end_state(#[trigger] one_of(p, q)(s))) by {
        assert(advances(s, end_state(p(s))));
        if let Err((NoProgress, e, s1)) = p(s) {
            assert(advances(s1, end_state(q(s1))));
            lemma_advances_transitive(s, s1, end_state(q(s1)));
        }
    }
}

pub broadcast proof fn lemma_forward_backtrackable<A, E>(p: Grammar<A, E>)
    requires
        forward(p),
    ensures
        #[trigger] forward(backtrackable(p)),
{
    reveal(forward);
    assert forall|s: StateView| advances(s, end_state(#[trigger] backtrackable(p)(s))) by {
        lemma_advances_reflexive(s);
        assert(advances(s, end_state(p(s))));
    }
}

pub broadcast proof fn lemma_forward_loc<A, E>(p: Grammar<A, E>)
    requires
        forward(p),
    ensures
        #[trigger] forward(loc(p)),
{
    reveal(forward);
    assert forall|s: StateView| advances(s, end_state(#[trigger] loc(p)(s))) by {
        assert(advances(s, end_state(p(s))));
    }
}

proof fn lemma_more_advances<A, E>(p: Grammar<A, E>, found: Seq<A>, s: StateView)
    requires
        forward(p),
    ensures
        advances(s, end_state(more(p, found, s))),
    decreases s.bytes.len(),
{
    reveal(forward);
    assert(advances(s, end_state(p(s))));
    if let Ok((_, a, s1)) = p(s) {
        if s1.bytes.len() < s.bytes.len() {
            lemma_more_advances(p, found.push(a), s1);
            lemma_advances_transitive(s, s1, end_state(more(p, found.push(a), s1)));
        }
    }
}

pub broadcast proof fn lemma_forward_zero_or_more<A, E>(p: Grammar<A, E>)
    requires
        forward(p),
    ensures
        #[trigger] forward(zero_or_more(p)),
{
    reveal(forward);
    assert forall|s: StateView| advances(s, end_state(#[trigger] zero_or_more(p)(s))) by {
        lemma_advances_reflexive(s);
        assert(advances(s, end_state(p(s))));
        if let Ok((_, a, s1)) = p(s) {
            lemma_more_advances(p, seq![a], s1);
            lemma_advances_transitive(s, s1, end_state(more(p, seq![a], s1)));
        }
    }
}

proof fn lemma_more_delimited_advances<A, D, E>(
    delimiter: Grammar<D, E>,
    p: Grammar<A, E>,
    found: Seq<A>,
    s: StateView,
)
    requires
        forward(delimiter),
        forward(p),
    ensures
        advances(s, end_state(more_delimited(delimiter, p, found, s))),
    decreases s.bytes.len(),
{
    reveal(forward);
    assert(advances(s, end_state(delimiter(s))));
    if let Ok((_, _, s1)) = delimiter(s) {
        assert(advances(s1, end_state(p(s1))));
        lemma_advances_transitive(s, s1, end_state(p(s1)));
        if let Ok((_, a, s2)) = p(s1) {
            if s2.bytes.len() < s.bytes.len() {
                let end = end_state(more_delimited(delimiter, p, found.push(a), s2));
                lemma_more_delimited_advances(delimiter, p, found.push(a), s2);
                lemma_advances_transitive(s, s2, end);
            }
        }
    }
}

pub broadcast proof fn lemma_forward_sep_by0<A, D, E>(delimiter: Grammar<D, E>, p: Grammar<A, E>)
    requires
        forward(delimiter),
        forward(p),
    ensures
        #[trigger] forward(sep_by0(delimiter, p)),
{
    reveal(forward);
    assert forall|s: StateView| advances(s, end_state(#[trigger] sep_by0(delimiter, p)(s))) by {
        lemma_advances_reflexive(s);
        assert(advances(s, end_state(p(s))));
        if let Ok((_, a, s1)) = p(s) {
            lemma_more_delimited_advances(delimiter, p, seq![a], s1);
            lemma_advances_transitive(
                s,
                s1,
                end_state(more_delimited(delimiter, p, seq![a], s1)),
            );
        }
    }
}

/// A grammar that is put together of such as only go forward only goes forward.
pub broadcast group group_forward {
    lemma_forward_parser,
    lemma_forward_succeed,
    lemma_forward_mapped,
    lemma_forward_specialize,
    lemma_forward_and_then,
    lemma_forward_and,
    lemma_forward_skip_first,
    lemma_forward_skip_second,
    lemma_forward_maybe,
    lemma_forward_one_of,
    lemma_forward_backtrackable,
    lemma_forward_loc,
    lemma_forward_zero_or_more,
    lemma_forward_sep_by0,
}

} // verus!
