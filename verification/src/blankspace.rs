//! Blank space: spaces, newlines and comments.

use crate::ast::{
    views, CommentOrNewline, CommentOrNewlineView, List, SpacedView, Spaces, SpacesView,
};
use crate::combine::{and, forward, lemma_advances_reflexive, map_err, mapped, Grammar};
use crate::problem::{BadInputError, SpaceProblem};
use crate::region::{Col, Located, Row};
use crate::state::{
    advances, end_state, outcome, MadeProgress, NoProgress, ParseResult, State, StateView,
};
use crate::unicode::read_text;
use bumpalo::Bump;
use vstd::prelude::*;
use vstd::slice::slice_subrange;
use vstd::utf8::{decode_utf8, valid_utf8};

verus! {

pub const SPACE: u8 = 0x20;

pub const NEWLINE: u8 = 0x0a;

pub const CARRIAGE_RETURN: u8 = 0x0d;

pub const TAB: u8 = 0x09;

pub const HASH: u8 = 0x23;

/// Where blank space ends, and the lines that it holds; or what is wrong with
/// it.
pub enum SpaceState {
    Good { bytes: Seq<u8>, row: Row, col: Col, lines: SpacesView },
    Bad { problem: BadInputError, row: Row, col: Col },
}

/// The number of bytes before the first `byte`, or of all bytes where there is
/// none.
pub open spec fn count_until(bytes: Seq<u8>, byte: u8) -> nat
    decreases bytes.len(),
{
    if bytes.len() == 0 || bytes[0] == byte {
        0
    } else {
        1 + count_until(bytes.skip(1), byte)
    }
}

/// The comment in a line, given what stands behind its `#`: a doc comment if
/// that is a second `#` and a space, or a second `#` alone.
pub open spec fn comment(line: Seq<u8>) -> Option<CommentOrNewlineView> {
    let is_doc = line.len() > 0 && line[0] == HASH && (line.len() == 1 || line[1] == SPACE);
    let text = if !is_doc {
        line
    } else if line.len() == 1 {
        line.skip(1)
    } else {
        line.skip(2)
    };
    if !valid_utf8(text) {
        None
    } else if is_doc {
        Some(CommentOrNewlineView::DocComment(decode_utf8(text)))
    } else {
        Some(CommentOrNewlineView::LineComment(decode_utf8(text)))
    }
}

/// The blank space that `bytes` start with, at the given place, where `lines`
/// came before it.
pub open spec fn eat_spaces(bytes: Seq<u8>, row: Row, col: Col, lines: SpacesView) -> SpaceState
    decreases bytes.len(),
{
    if bytes.len() == 0 {
        SpaceState::Good { bytes, row, col, lines }
    } else if bytes[0] == SPACE {
        if col == Col::MAX {
            SpaceState::Bad { problem: BadInputError::LineTooLong, row, col }
        } else {
            eat_spaces(bytes.skip(1), row, (col + 1) as Col, lines)
        }
    } else if bytes[0] == NEWLINE {
        if row == Row::MAX {
            SpaceState::Bad { problem: BadInputError::TooManyLines, row, col }
        } else {
            eat_spaces(
                bytes.skip(1),
                (row + 1) as Row,
                0,
                lines.push(CommentOrNewlineView::Newline),
            )
        }
    } else if bytes[0] == CARRIAGE_RETURN {
        eat_spaces(bytes.skip(1), row, col, lines)
    } else if bytes[0] == TAB {
        SpaceState::Bad { problem: BadInputError::HasTab, row, col }
    } else if bytes[0] == HASH {
        let end = count_until(bytes, NEWLINE) as int;
        let tab = count_until(bytes, TAB) as int;
        if col + end > Col::MAX {
            SpaceState::Bad { problem: BadInputError::LineTooLong, row, col }
        } else if tab < end {
            SpaceState::Bad { problem: BadInputError::HasTab, row, col: (col + tab) as Col }
        } else {
            match comment(bytes.subrange(1, end)) {
                None => SpaceState::Bad { problem: BadInputError::BadUtf8, row, col },
                Some(line) => if end >= bytes.len() {
                    SpaceState::Good {
                        bytes: bytes.skip(end),
                        row,
                        col: (col + end) as Col,
                        lines: lines.push(line),
                    }
                } else if row == Row::MAX {
                    SpaceState::Bad {
                        problem: BadInputError::TooManyLines,
                        row,
                        col: (col + end) as Col,
                    }
                } else {
                    eat_spaces(bytes.skip(end + 1), (row + 1) as Row, 0, lines.push(line))
                },
            }
        }
    } else {
        SpaceState::Good { bytes, row, col, lines }
    }
}

/// Blank space, which may be empty. Where it goes over to another line, that
/// line starts at column `min_indent` or behind it.
pub open spec fn space0(min_indent: Col) -> Grammar<SpacesView, SpaceProblem> {
    |s: StateView|
        match eat_spaces(s.bytes, s.line, s.column, Seq::empty()) {
            SpaceState::Bad { problem, row, col } => Err(
                (MadeProgress, SpaceProblem::Space(problem, row, col), s),
            ),
            SpaceState::Good { bytes, row, col, lines } => if bytes.len() == s.bytes.len() {
                Ok((NoProgress, Seq::<CommentOrNewlineView>::empty(), s))
            } else if row == s.line {
                Ok((MadeProgress, lines, StateView { bytes, column: col, ..s }))
            } else if col >= min_indent {
                Ok(
                    (
                        MadeProgress,
                        lines,
                        StateView { bytes, line: row, column: col, indent_col: col },
                    ),
                )
            } else {
                Err((MadeProgress, SpaceProblem::Indent(s.line, s.column), s))
            },
        }
}

/// Blank space, with the problems that the surroundings call for.
pub open spec fn space0_e<E>(
    min_indent: Col,
    space_problem: spec_fn(BadInputError, Row, Col) -> E,
    indent_problem: spec_fn(Row, Col) -> E,
) -> Grammar<SpacesView, E> {
    map_err(
        |problem: SpaceProblem|
            match problem {
                SpaceProblem::Space(bad, row, col) => space_problem(bad, row, col),
                SpaceProblem::Indent(row, col) => indent_problem(row, col),
            },
        space0(min_indent),
    )
}

/// `p`, with the lines of the blank space before it.
pub open spec fn space0_before_e<A, E>(
    p: Grammar<Located<A>, E>,
    min_indent: Col,
    space_problem: spec_fn(BadInputError, Row, Col) -> E,
    indent_problem: spec_fn(Row, Col) -> E,
) -> Grammar<Located<SpacedView<A>>, E> {
    mapped(
        and(space0_e(min_indent, space_problem, indent_problem), p),
        |parts: (SpacesView, Located<A>)|
            Located {
                region: parts.1.region,
                value: SpacedView::Item(parts.1.value).with_spaces_before(parts.0),
            },
    )
}

/// `p`, with the lines of the blank space before it and behind it.
pub open spec fn space0_around_e<A, E>(
    p: Grammar<Located<A>, E>,
    min_indent: Col,
    space_problem: spec_fn(BadInputError, Row, Col) -> E,
    indent_problem: spec_fn(Row, Col) -> E,
) -> Grammar<Located<SpacedView<A>>, E> {
    mapped(
        and(
            space0_e(min_indent, space_problem, indent_problem),
            and(p, space0_e(min_indent, space_problem, indent_problem)),
        ),
        |parts: (SpacesView, (Located<A>, SpacesView))|
            Located {
                region: parts.1.0.region,
                value: SpacedView::Item(parts.1.0.value).with_spaces_after(
                    parts.1.1,
                ).with_spaces_before(parts.0),
            },
    )
}

pub proof fn lemma_count_until(bytes: Seq<u8>, byte: u8)
    ensures
        count_until(bytes, byte) <= bytes.len(),
    decreases bytes.len(),
{
    if bytes.len() > 0 && bytes[0] != byte {
        lemma_count_until(bytes.skip(1), byte);
    }
}

proof fn lemma_eat_spaces_advances(bytes: Seq<u8>, row: Row, col: Col, lines: SpacesView)
    ensures
        eat_spaces(bytes, row, col, lines) matches SpaceState::Good {
            bytes: rest,
            row: end_row,
            col: end_col,
            lines: _,
        } ==> {
            &&& rest.len() <= bytes.len()
            &&& rest == bytes.skip(bytes.len() - rest.len())
            &&& row < end_row || (row == end_row && col <= end_col)
        },
    decreases bytes.len(),
{
    if bytes.len() == 0 {
        assert(bytes.skip(0) =~= bytes);
    } else if bytes[0] == SPACE {
        if col < Col::MAX {
            lemma_eat_spaces_advances(bytes.skip(1), row, (col + 1) as Col, lines);
            lemma_skip_skip(bytes, 1);
        }
    } else if bytes[0] == NEWLINE {
        if row < Row::MAX {
            lemma_eat_spaces_advances(
                bytes.skip(1),
                (row + 1) as Row,
                0,
                lines.push(CommentOrNewlineView::Newline),
            );
            lemma_skip_skip(bytes, 1);
        }
    } else if bytes[0] == CARRIAGE_RETURN {
        lemma_eat_spaces_advances(bytes.skip(1), row, col, lines);
        lemma_skip_skip(bytes, 1);
    } else if bytes[0] == HASH {
        let end = count_until(bytes, NEWLINE) as int;
        lemma_count_until(bytes, NEWLINE);
        if let Some(line) = comment(bytes.subrange(1, end)) {
            if end < bytes.len() && row < Row::MAX {
                lemma_eat_spaces_advances(
                    bytes.skip(end + 1),
                    (row + 1) as Row,
                    0,
                    lines.push(line),
                );
                lemma_skip_skip(bytes, end + 1);
            }
        }
    } else {
        assert(bytes.skip(0) =~= bytes);
    }
}

proof fn lemma_skip_skip(bytes: Seq<u8>, n: int)
    requires
        0 <= n <= bytes.len(),
    ensures
        forall|m: int|
            0 <= m <= bytes.len() - n ==> #[trigger] bytes.skip(n).skip(m) == bytes.skip(n + m),
{
    assert forall|m: int| 0 <= m <= bytes.len() - n implies #[trigger] bytes.skip(n).skip(m)
        == bytes.skip(n + m) by {
        assert(bytes.skip(n).skip(m) =~= bytes.skip(n + m));
    }
}

pub broadcast proof fn lemma_forward_space0(min_indent: Col)
    ensures
        #[trigger] forward(space0(min_indent)),
{
    reveal(forward);
    assert forall|s: StateView| advances(s, end_state(#[trigger] space0(min_indent)(s))) by {
        lemma_advances_reflexive(s);
        lemma_eat_spaces_advances(s.bytes, s.line, s.column, Seq::empty());
    }
}

/// The number of bytes before the first `byte`.
fn find_byte(bytes: &[u8], byte: u8) -> (count: usize)
    ensures
        count == count_until(bytes@, byte),
        count <= bytes@.len(),
{
    let mut i: usize = 0;
    assert(bytes@.skip(0) =~= bytes@);
    while i < bytes.len() && bytes[i] != byte
        invariant
            i <= bytes@.len(),
            count_until(bytes@, byte) == i + count_until(bytes@.skip(i as int), byte),
        decreases bytes@.len() - i,
    {
        assert(bytes@.skip(i as int).skip(1) =~= bytes@.skip(i + 1));
        i = i + 1;
    }
    i
}

/// Reads the comment in a line, given what stands behind its `#`.
fn read_comment<'a>(line: &'a [u8]) -> (found: Option<CommentOrNewline<'a>>)
    ensures
        match found {
            Some(c) => comment(line@) == Some(c@),
            None => comment(line@) is None,
        },
{
    let len: usize = line.len();
    if len > 0 && line[0] == HASH && (len == 1 || line[1] == SPACE) {
        let start: usize = if len == 1 {
            1
        } else {
            2
        };
        let text = slice_subrange(line, start, len);
        assert(text@ =~= line@.skip(start as int));
        match read_text(text) {
            Some(text) => Some(CommentOrNewline::DocComment(text)),
            None => None,
        }
    } else {
        match read_text(line) {
            Some(text) => Some(CommentOrNewline::LineComment(text)),
            None => None,
        }
    }
}

/// The executable counterpart of [`SpaceState`].
enum Chomped<'a> {
    Good { bytes: &'a [u8], row: Row, col: Col, lines: Vec<CommentOrNewline<'a>> },
    Bad { problem: BadInputError, row: Row, col: Col },
}

impl<'a> Chomped<'a> {
    spec fn space_state(self) -> SpaceState {
        match self {
            Chomped::Good { bytes, row, col, lines } => SpaceState::Good {
                bytes: bytes@,
                row,
                col,
                lines: views(lines@),
            },
            Chomped::Bad { problem, row, col } => SpaceState::Bad { problem, row, col },
        }
    }
}

/// Takes the blank space that `bytes` start with.
fn chomp_spaces<'a>(bytes: &'a [u8], row: Row, col: Col) -> (chomped: Chomped<'a>)
    ensures
        chomped.space_state() == eat_spaces(bytes@, row, col, Seq::empty()),
{
    let mut rest: &'a [u8] = bytes;
    let mut at_row: Row = row;
    let mut at_col: Col = col;
    let mut lines: Vec<CommentOrNewline<'a>> = Vec::new();
    assert(views(lines@) =~= Seq::empty());
    while rest.len() > 0
        invariant
            eat_spaces(bytes@, row, col, Seq::empty()) == eat_spaces(
                rest@,
                at_row,
                at_col,
                views(lines@),
            ),
        decreases rest@.len(),
    {
        let first: u8 = rest[0];
        let behind = slice_subrange(rest, 1, rest.len());
        assert(behind@ =~= rest@.skip(1));
        if first == SPACE {
            if at_col == Col::MAX {
                return Chomped::Bad {
                    problem: BadInputError::LineTooLong,
                    row: at_row,
                    col: at_col,
                };
            }
            at_col = at_col + 1;
            rest = behind;
        } else if first == NEWLINE {
            if at_row == Row::MAX {
                return Chomped::Bad {
                    problem: BadInputError::TooManyLines,
                    row: at_row,
                    col: at_col,
                };
            }
            at_row = at_row + 1;
            at_col = 0;
            let ghost before = lines@;
            lines.push(CommentOrNewline::Newline);
            assert(views(lines@) =~= views(before).push(CommentOrNewlineView::Newline));
            rest = behind;
        } else if first == CARRIAGE_RETURN {
            rest = behind;
        } else if first == TAB {
            return Chomped::Bad { problem: BadInputError::HasTab, row: at_row, col: at_col };
        } else if first == HASH {
            let end: usize = find_byte(rest, NEWLINE);
            let tab: usize = find_byte(rest, TAB);
            if end > (Col::MAX - at_col) as usize {
                return Chomped::Bad {
                    problem: BadInputError::LineTooLong,
                    row: at_row,
                    col: at_col,
                };
            }
            if tab < end {
                return Chomped::Bad {
                    problem: BadInputError::HasTab,
                    row: at_row,
                    col: at_col + tab as Col,
                };
            }
            assert(end >= 1);
            match read_comment(slice_subrange(rest, 1, end)) {
                None => {
                    return Chomped::Bad {
                        problem: BadInputError::BadUtf8,
                        row: at_row,
                        col: at_col,
                    };
                },
                Some(line) => {
                    let ghost before = lines@;
                    lines.push(line);
                    assert(views(lines@) =~= views(before).push(line@));
                    if end == rest.len() {
                        let behind = slice_subrange(rest, end, rest.len());
                        assert(behind@ =~= rest@.skip(end as int));
                        return Chomped::Good {
                            bytes: behind,
                            row: at_row,
                            col: at_col + end as Col,
                            lines,
                        };
                    }
                    if at_row == Row::MAX {
                        return Chomped::Bad {
                            problem: BadInputError::TooManyLines,
                            row: at_row,
                            col: at_col + end as Col,
                        };
                    }
                    at_row = at_row + 1;
                    at_col = 0;
                    let behind = slice_subrange(rest, end + 1, rest.len());
                    assert(behind@ =~= rest@.skip(end + 1));
                    rest = behind;
                },
            }
        } else {
            return Chomped::Good { bytes: rest, row: at_row, col: at_col, lines };
        }
    }
    Chomped::Good { bytes: rest, row: at_row, col: at_col, lines }
}

/// Parses blank space.
pub fn parse_space0<'a>(arena: &'a Bump, state: State<'a>, min_indent: Col) -> (result: ParseResult<
    'a,
    Spaces<'a>,
    SpaceProblem,
>)
    ensures
        outcome(result) == space0(min_indent)(state@),
{
    match chomp_spaces(state.bytes, state.line, state.column) {
        Chomped::Bad { problem, row, col } => Err(
            (MadeProgress, SpaceProblem::Space(problem, row, col), state),
        ),
        Chomped::Good { bytes, row, col, lines } => {
            if bytes.len() == state.bytes.len() {
                Ok((NoProgress, List::empty(arena), state))
            } else if row == state.line {
                let end = State { bytes, line: row, column: col, indent_col: state.indent_col };
                Ok((MadeProgress, List::from_vec(arena, lines), end))
            } else if col >= min_indent {
                let end = State { bytes, line: row, column: col, indent_col: col };
                Ok((MadeProgress, List::from_vec(arena, lines), end))
            } else {
                Err((MadeProgress, SpaceProblem::Indent(state.line, state.column), state))
            }
        },
    }
}

} // verus!
