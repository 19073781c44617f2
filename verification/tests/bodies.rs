use bumpalo::Bump;
use roc_parse::ast::{CommentOrNewline, Spaced};
use roc_parse::module::{module_defs, Defs};
use roc_parse::problem::{BadInputError, DefsError, SyntaxError};
use roc_parse::region::Region;
use roc_parse::state::{
    MadeProgress, NoProgress, OutcomeOf, ParseResult, Parser, State, StateView,
};

#[derive(Debug, Clone, Copy, PartialEq)]
enum Problem {
    NoName,
    NoValue,
}

/// A definition such as `x=1`.
#[derive(Clone, Copy)]
struct Def;

impl<'a> Parser<'a> for Def {
    type Output = &'a str;

    type Error = Problem;

    fn spec_parse(&self, _: StateView) -> OutcomeOf<'a, Self> {
        unreachable!()
    }

    fn lemma_advances(&self, _: StateView) {}

    fn parse(&self, _: &'a Bump, state: State<'a>) -> ParseResult<'a, &'a str, Problem> {
        match state.bytes {
            [name, b'=', value, ..] if name.is_ascii_lowercase() && value.is_ascii_digit() => {
                let text = std::str::from_utf8(&state.bytes[..3]).unwrap();
                Ok((MadeProgress, text, state.advance_without_indenting(3).unwrap()))
            }
            [name, ..] if name.is_ascii_lowercase() => {
                let end = state.advance_without_indenting(1).unwrap();
                Err((MadeProgress, Problem::NoValue, end))
            }
            _ => Err((NoProgress, Problem::NoName, state)),
        }
    }
}

/// A definition of no bytes.
#[derive(Clone, Copy)]
struct Nothing;

impl<'a> Parser<'a> for Nothing {
    type Output = &'a str;

    type Error = Problem;

    fn spec_parse(&self, _: StateView) -> OutcomeOf<'a, Self> {
        unreachable!()
    }

    fn lemma_advances(&self, _: StateView) {}

    fn parse(&self, _: &'a Bump, state: State<'a>) -> ParseResult<'a, &'a str, Problem> {
        Ok((NoProgress, "", state))
    }
}

fn parse<'a>(
    arena: &'a Bump,
    source: &'a [u8],
) -> ParseResult<'a, Defs<'a, &'a str>, DefsError<Problem>> {
    module_defs(Def).parse(arena, State::new(source))
}

#[test]
fn body_without_definitions() {
    let arena = Bump::new();
    match parse(&arena, b"") {
        Ok((NoProgress, defs, end)) => {
            assert!(defs.is_empty());
            assert_eq!(end, State::new(b""));
        }
        other => panic!("{:?}", other),
    }
}

#[test]
fn body_with_definitions() {
    let arena = Bump::new();
    match parse(&arena, b"a=1\n\n# two\nb=2\n   c=3 ") {
        Ok((MadeProgress, defs, end)) => {
            assert_eq!(end.bytes.len(), 0);
            assert_eq!((end.line, end.column, end.indent_col), (4, 7, 3));
            assert_eq!(defs.0.len(), 3);
            let places: Vec<_> = defs.0.iter().map(|def| def.region).collect();
            let region = |line, start_col, end_col| Region {
                start_line: line,
                end_line: line,
                start_col,
                end_col,
            };
            assert_eq!(places, vec![region(0, 0, 3), region(3, 0, 3), region(4, 3, 6)]);
            match &defs.0[0].value {
                Spaced::SpaceAfter(Spaced::Item("a=1"), after) => assert_eq!(
                    after.0.to_vec(),
                    vec![
                        CommentOrNewline::Newline,
                        CommentOrNewline::Newline,
                        CommentOrNewline::LineComment(" two"),
                    ]
                ),
                other => panic!("{:?}", other),
            }
            match &defs.0[1].value {
                Spaced::SpaceAfter(Spaced::Item("b=2"), after) => {
                    assert_eq!(after.0.to_vec(), vec![CommentOrNewline::Newline]);
                }
                other => panic!("{:?}", other),
            }
            assert_eq!(defs.0[2].value, Spaced::Item("c=3"));
        }
        other => panic!("{:?}", other),
    }
}

#[test]
fn body_that_starts_with_blank_space() {
    let arena = Bump::new();
    match parse(&arena, b"\n\na=1") {
        Ok((MadeProgress, defs, _)) => match &defs.0[0].value {
            Spaced::SpaceBefore(Spaced::Item("a=1"), before) => {
                assert_eq!(before.0.len(), 2);
            }
            other => panic!("{:?}", other),
        },
        other => panic!("{:?}", other),
    }
}

#[test]
fn text_behind_the_last_definition() {
    let arena = Bump::new();
    let source = b"a=1\n]";
    let problem = DefsError::Syntax(SyntaxError::NotEndOfFile(1, 0));
    let expected = Err((MadeProgress, problem, State::new(source)));
    assert_eq!(parse(&arena, source), expected);
    let problem = DefsError::Syntax(SyntaxError::NotEndOfFile(0, 0));
    let expected = Err((NoProgress, problem, State::new(b"]")));
    assert_eq!(parse(&arena, b"]"), expected);
}

#[test]
fn body_with_a_bad_definition() {
    let arena = Bump::new();
    for source in [&b"a"[..], &b"a=1\nb=x"[..]] {
        let expected = Err((
            MadeProgress,
            DefsError::Def(Problem::NoValue),
            State::new(source),
        ));
        assert_eq!(parse(&arena, source), expected);
    }
}

#[test]
fn body_of_blank_space_only() {
    let arena = Bump::new();
    let source = b" \n";
    let expected = Err((
        MadeProgress,
        DefsError::Def(Problem::NoName),
        State::new(source),
    ));
    assert_eq!(parse(&arena, source), expected);
}

#[test]
fn body_with_a_tab() {
    let arena = Bump::new();
    let source = b"a=1\tb=2";
    let problem = DefsError::Syntax(SyntaxError::Space(BadInputError::HasTab, 0, 3));
    let expected = Err((MadeProgress, problem, State::new(source)));
    assert_eq!(parse(&arena, source), expected);
}

#[test]
fn definitions_of_no_bytes_come_to_an_end() {
    let arena = Bump::new();
    match module_defs(Nothing).parse(&arena, State::new(b"  ")) {
        Ok((MadeProgress, defs, end)) => {
            assert_eq!(defs.0.len(), 2);
            assert_eq!(end.bytes.len(), 0);
        }
        other => panic!("{:?}", other),
    }
}
