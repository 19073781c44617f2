//! Where a parser stands in its input, and what parsers promise.

use crate::problem::SyntaxError;
use crate::region::{Col, Region, Row};
use bumpalo::Bump;
use vstd::prelude::*;
use vstd::slice::slice_subrange;

verus! {

/// What is left of the input, and where that stands in the source.
#[derive(Debug, Clone, Copy, PartialEq, Eq)]
pub struct State<'a> {
    /// The bytes that are still to be parsed.
    pub bytes: &'a [u8],
    pub line: Row,
    /// The column, counted in bytes.
    pub column: Col,
    /// The column at which the text of the current line starts.
    pub indent_col: Col,
}

/// The mathematical view of a [`State`].
pub struct StateView {
    pub bytes: Seq<u8>,
    pub line: Row,
    pub column: Col,
    pub indent_col: Col,
}

impl<'a> View for State<'a> {
    type V = StateView;

    open spec fn view(&self) -> StateView {
        StateView {
            bytes: self.bytes@,
            line: self.line,
            column: self.column,
            indent_col: self.indent_col,
        }
    }
}

/// Whether a parser has taken hold of its input. One that fails without
/// progress leaves room for another one to try.
#[derive(Debug, Clone, Copy, PartialEq, Eq, Structural)]
pub enum Progress {
    MadeProgress,
    NoProgress,
}

pub use Progress::{MadeProgress, NoProgress};

impl Progress {
    pub open spec fn spec_or(self, other: Progress) -> Progress {
        if self == MadeProgress {
            MadeProgress
        } else {
            other
        }
    }

    /// The progress of two steps together.
    #[verifier::when_used_as_spec(spec_or)]
    pub fn or(self, other: Progress) -> (progress: Progress)
        ensures
            progress == self.spec_or(other),
    {
        match self {
            MadeProgress => MadeProgress,
            NoProgress => other,
        }
    }

    pub open spec fn between(before: StateView, after: StateView) -> Progress {
        if after.bytes.len() < before.bytes.len() {
            MadeProgress
        } else {
            NoProgress
        }
    }
}

/// What a parser returns: a value, or what was wrong; each time with the
/// progress that was made and the state that parsing goes on from.
pub type ParseResult<'a, O, E> = Result<(Progress, O, State<'a>), (Progress, E, State<'a>)>;

/// The mathematical view of a [`ParseResult`].
pub type Outcome<V, E> = Result<(Progress, V, StateView), (Progress, E, StateView)>;

/// The view of what a parser returns.
pub type OutcomeOf<'a, P> = Outcome<
    <<P as Parser<'a>>::Output as View>::V,
    <P as Parser<'a>>::Error,
>;

/// The view of a result, its value and its state taken by their views.
pub open spec fn outcome<'a, O: View, E>(result: ParseResult<'a, O, E>) -> Outcome<O::V, E> {
    match result {
        Ok((progress, value, state)) => Ok((progress, value@, state@)),
        Err((progress, problem, state)) => Err((progress, problem, state@)),
    }
}

/// The view of a value that may be missing.
pub open spec fn opt_view<O: View>(opt: Option<O>) -> Option<O::V> {
    match opt {
        Some(value) => Some(value@),
        None => None,
    }
}

/// The view of a result whose value may be missing.
pub open spec fn opt_outcome<'a, O: View, E>(result: ParseResult<'a, Option<O>, E>) -> Outcome<
    Option<O::V>,
    E,
> {
    match result {
        Ok((progress, opt, state)) => Ok((progress, opt_view(opt), state@)),
        Err((progress, problem, state)) => Err((progress, problem, state@)),
    }
}

/// `after` is what `before` becomes when bytes are taken off its front: no byte
/// is skipped or made up, and the position does not move back.
pub open spec fn advances(before: StateView, after: StateView) -> bool {
    &&& after.bytes.len() <= before.bytes.len()
    &&& after.bytes == before.bytes.skip(before.bytes.len() - after.bytes.len())
    &&& before.line < after.line || (before.line == after.line && before.column <= after.column)
}

/// The state in which `result` leaves a parser.
pub open spec fn end_state<V, E>(result: Outcome<V, E>) -> StateView {
    match result {
        Ok((_, _, state)) => state,
        Err((_, _, state)) => state,
    }
}

/// A parser. Which value it gives, what it finds wrong and where it stops are a
/// function of the state alone.
pub trait Parser<'a>: Sized {
    type Output: View + 'a;

    type Error;

    /// What parsing from `state` gives.
    spec fn spec_parse(&self, state: StateView) -> OutcomeOf<'a, Self>;

    /// A parser only takes bytes off the front of its input.
    proof fn lemma_advances(&self, state: StateView)
        ensures
            advances(state, end_state(self.spec_parse(state))),
    ;

    fn parse(&self, arena: &'a Bump, state: State<'a>) -> (result: ParseResult<
        'a,
        Self::Output,
        Self::Error,
    >)
        ensures
            outcome(result) == self.spec_parse(state@),
    ;
}

impl<'a, 'p, P: Parser<'a>> Parser<'a> for &'p P {
    type Output = P::Output;

    type Error = P::Error;

    open spec fn spec_parse(&self, state: StateView) -> OutcomeOf<'a, Self> {
        (**self).spec_parse(state)
    }

    proof fn lemma_advances(&self, state: StateView) {
        (**self).lemma_advances(state);
    }

    fn parse(&self, arena: &'a Bump, state: State<'a>) -> (result: ParseResult<
        'a,
        P::Output,
        P::Error,
    >) {
        (**self).parse(arena, state)
    }
}

impl StateView {
    /// Whether a token of `width` bytes ends in a column that can be counted.
    pub open spec fn has_room(self, width: int) -> bool {
        self.column + width <= Col::MAX
    }

    /// The state behind a token of `width` bytes.
    pub open spec fn skip(self, width: int) -> StateView {
        StateView {
            bytes: self.bytes.skip(width),
            column: (self.column + width) as Col,
            ..self
        }
    }

    /// The region of the next `width` columns of the current line.
    pub open spec fn next_region(self, width: int) -> Region {
        Region {
            start_line: self.line,
            end_line: self.line,
            start_col: self.column,
            end_col: (self.column + width) as Col,
        }
    }

    /// Taking a token of `width` bytes: the state behind it, or the complaint
    /// that the line is too long.
    pub open spec fn advance(self, width: int) -> Result<
        StateView,
        (Progress, SyntaxError, StateView),
    > {
        if self.has_room(width) {
            Ok(self.skip(width))
        } else {
            Err((NoProgress, SyntaxError::LineTooLong(self.line), self))
        }
    }

    /// The complaint that the next `width` columns hold other text than needed.
    pub open spec fn unexpected(self, width: int) -> (Progress, SyntaxError, StateView) {
        if self.has_room(width) {
            (NoProgress, SyntaxError::Unexpected(self.next_region(width)), self)
        } else {
            (NoProgress, SyntaxError::LineTooLong(self.line), self)
        }
    }
}

impl<'a> State<'a> {
    /// The state at the start of a source text.
    pub fn new(bytes: &'a [u8]) -> (state: State<'a>)
        ensures
            state@ == (StateView { bytes: bytes@, line: 0, column: 0, indent_col: 0 }),
    {
        State { bytes, line: 0, column: 0, indent_col: 0 }
    }

    /// Takes `quantity` bytes off the front, none of which is blank space that a
    /// line starts with.
    pub fn advance_without_indenting(self, quantity: usize) -> (result: Result<
        State<'a>,
        (Progress, SyntaxError, State<'a>),
    >)
        requires
            quantity <= self.bytes@.len(),
        ensures
            match result {
                Ok(state) => self@.advance(quantity as int) == Ok::<
                    StateView,
                    (Progress, SyntaxError, StateView),
                >(state@),
                Err((progress, problem, state)) => self@.advance(quantity as int) == Err::<
                    StateView,
                    (Progress, SyntaxError, StateView),
                >((progress, problem, state@)),
            },
    {
        if quantity <= (Col::MAX - self.column) as usize {
            let bytes = slice_subrange(self.bytes, quantity, self.bytes.len());
            assert(bytes@ == self.bytes@.skip(quantity as int));
            Ok(
                State {
                    bytes,
                    line: self.line,
                    column: self.column + quantity as Col,
                    indent_col: self.indent_col,
                },
            )
        } else {
            Err((NoProgress, SyntaxError::LineTooLong(self.line), self))
        }
    }
}

/// Reports that the next `chars_consumed` columns hold other text than needed.
pub fn unexpected<'a>(chars_consumed: usize, state: State<'a>) -> (failure: (
    Progress,
    SyntaxError,
    State<'a>,
))
    ensures
        (failure.0, failure.1, failure.2@) == state@.unexpected(chars_consumed as int),
{
    if chars_consumed <= (Col::MAX - state.column) as usize {
        let region = Region {
            start_line: state.line,
            end_line: state.line,
            start_col: state.column,
            end_col: state.column + chars_consumed as Col,
        };
        (NoProgress, SyntaxError::Unexpected(region), state)
    } else {
        (NoProgress, SyntaxError::LineTooLong(state.line), state)
    }
}

} // verus!
