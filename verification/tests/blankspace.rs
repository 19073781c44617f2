use bumpalo::Bump;
use roc_parse::ast::CommentOrNewline;
use roc_parse::blankspace::parse_space0;
use roc_parse::lex::{
    parse_ascii_string, parse_end_of_file, parse_keyword, parse_word1, peek_utf8_char,
    peek_utf8_char_at,
};
use roc_parse::module::spaces_around_keyword;
use roc_parse::problem::{BadInputError, KeywordProblem, SpaceProblem, SyntaxError};
use roc_parse::region::Region;
use roc_parse::state::{MadeProgress, NoProgress, Progress, State};

fn state(bytes: &[u8], line: u32, column: u16, indent_col: u16) -> State<'_> {
    State {
        bytes,
        line,
        column,
        indent_col,
    }
}

fn spaces<'a>(
    arena: &'a Bump,
    start: State<'a>,
    min_indent: u16,
) -> Result<(Progress, Vec<CommentOrNewline<'a>>, State<'a>), (Progress, SpaceProblem, State<'a>)> {
    match parse_space0(arena, start, min_indent) {
        Ok((progress, lines, end)) => Ok((progress, lines.0.to_vec(), end)),
        Err(failure) => Err(failure),
    }
}

#[test]
fn no_blank_space() {
    let arena = Bump::new();
    let start = state(b"x", 2, 4, 1);
    assert_eq!(spaces(&arena, start, 3), Ok((NoProgress, vec![], start)));
}

#[test]
fn spaces_in_a_line() {
    let arena = Bump::new();
    let expected = Ok((MadeProgress, vec![], state(b"x", 2, 7, 1)));
    assert_eq!(spaces(&arena, state(b"   x", 2, 4, 1), 9), expected);
}

#[test]
fn blank_space_over_lines() {
    let arena = Bump::new();
    let lines = vec![CommentOrNewline::Newline, CommentOrNewline::Newline];
    let expected = Ok((MadeProgress, lines, state(b"x", 4, 2, 2)));
    assert_eq!(spaces(&arena, state(b" \n\r\n  x", 2, 4, 1), 2), expected);
}

#[test]
fn comments_stand_for_their_lines() {
    let arena = Bump::new();
    let source = "# one\n## two\n##\n##three\n    x";
    let lines = vec![
        CommentOrNewline::LineComment(" one"),
        CommentOrNewline::DocComment("two"),
        CommentOrNewline::DocComment(""),
        CommentOrNewline::LineComment("#three"),
    ];
    let expected = Ok((MadeProgress, lines, state(b"x", 4, 4, 4)));
    assert_eq!(spaces(&arena, state(source.as_bytes(), 0, 0, 0), 1), expected);
}

#[test]
fn comment_at_the_end_of_the_input() {
    let arena = Bump::new();
    let lines = vec![CommentOrNewline::LineComment(" end")];
    let expected = Ok((MadeProgress, lines, state(b"", 0, 7, 0)));
    assert_eq!(spaces(&arena, state(b"  # end", 0, 0, 0), 1), expected);
}

#[test]
fn line_too_far_to_the_left() {
    let arena = Bump::new();
    let start = state(b"\n x", 2, 4, 1);
    let expected = Err((MadeProgress, SpaceProblem::Indent(2, 4), start));
    assert_eq!(spaces(&arena, start, 2), expected);
}

#[test]
fn tabs_are_refused() {
    let arena = Bump::new();
    let start = state(b"  \tx", 0, 0, 0);
    let problem = SpaceProblem::Space(BadInputError::HasTab, 0, 2);
    assert_eq!(spaces(&arena, start, 0), Err((MadeProgress, problem, start)));
    let start = state(b"\n# a\tb\n", 0, 0, 0);
    let problem = SpaceProblem::Space(BadInputError::HasTab, 1, 3);
    assert_eq!(spaces(&arena, start, 0), Err((MadeProgress, problem, start)));
}

#[test]
fn comments_are_utf8() {
    let arena = Bump::new();
    let start = state(b"#\xff\n", 0, 0, 0);
    let problem = SpaceProblem::Space(BadInputError::BadUtf8, 0, 0);
    assert_eq!(spaces(&arena, start, 0), Err((MadeProgress, problem, start)));
}

#[test]
fn lines_and_columns_that_cannot_be_counted() {
    let arena = Bump::new();
    let start = state(b"  x", 0, 65534, 0);
    let problem = SpaceProblem::Space(BadInputError::LineTooLong, 0, 65535);
    assert_eq!(spaces(&arena, start, 0), Err((MadeProgress, problem, start)));
    let start = state(b"# x", 0, 65534, 0);
    let problem = SpaceProblem::Space(BadInputError::LineTooLong, 0, 65534);
    assert_eq!(spaces(&arena, start, 0), Err((MadeProgress, problem, start)));
    let start = state(b"\nx", u32::MAX, 5, 0);
    let problem = SpaceProblem::Space(BadInputError::TooManyLines, u32::MAX, 5);
    assert_eq!(spaces(&arena, start, 0), Err((MadeProgress, problem, start)));
    let start = state(b"#a\nx", u32::MAX, 5, 0);
    let problem = SpaceProblem::Space(BadInputError::TooManyLines, u32::MAX, 7);
    assert_eq!(spaces(&arena, start, 0), Err((MadeProgress, problem, start)));
}

#[test]
fn keyword_between_blank_space() {
    let arena = Bump::new();
    let start = state(b"\n    exposes # all\n    [", 0, 13, 0);
    match spaces_around_keyword(&arena, start, 1, "exposes") {
        Ok((MadeProgress, (before, after), end)) => {
            assert_eq!(before.0.to_vec(), vec![CommentOrNewline::Newline]);
            assert_eq!(after.0.to_vec(), vec![CommentOrNewline::LineComment(" all")]);
            assert_eq!(end, state(b"[", 2, 4, 4));
        }
        other => panic!("{:?}", other),
    }
}

#[test]
fn keyword_missing() {
    let arena = Bump::new();
    let start = state(b"  imports [", 1, 3, 0);
    let problem = KeywordProblem::Expectation(1, 5);
    let expected = Err((NoProgress, problem, start));
    assert_eq!(spaces_around_keyword(&arena, start, 1, "exposes"), expected);
}

#[test]
fn keyword_is_a_whole_word() {
    let arena = Bump::new();
    for source in [&b"exposes[]"[..], &b"exposesX"[..], &b"exposes"[..], &b"expose"[..]] {
        let start = state(source, 0, 0, 0);
        let expected = Err((NoProgress, KeywordProblem::Expectation(0, 0), start));
        assert_eq!(spaces_around_keyword(&arena, start, 1, "exposes"), expected);
    }
    for source in [&b"exposes "[..], &b"exposes#"[..]] {
        let start = state(source, 0, 0, 0);
        assert!(spaces_around_keyword(&arena, start, 1, "exposes").is_ok());
    }
}

#[test]
fn keyword_too_far_to_the_left() {
    let arena = Bump::new();
    let start = state(b"\nexposes []", 0, 9, 0);
    let problem = KeywordProblem::IndentBefore(0, 9);
    let expected = Err((NoProgress, problem, start));
    assert_eq!(spaces_around_keyword(&arena, start, 1, "exposes"), expected);
}

#[test]
fn text_behind_a_keyword_too_far_to_the_left() {
    let arena = Bump::new();
    let start = state(b" exposes\n[]", 0, 9, 0);
    let problem = KeywordProblem::IndentAfter(0, 17);
    let expected = Err((MadeProgress, problem, start));
    assert_eq!(spaces_around_keyword(&arena, start, 1, "exposes"), expected);
}

#[test]
fn tabs_around_a_keyword() {
    let arena = Bump::new();
    let start = state(b"\texposes []", 0, 9, 0);
    let problem = KeywordProblem::Space(BadInputError::HasTab, 0, 9);
    let expected = Err((NoProgress, problem, start));
    assert_eq!(spaces_around_keyword(&arena, start, 1, "exposes"), expected);
    let start = state(b" exposes \t[]", 0, 9, 0);
    let problem = KeywordProblem::Space(BadInputError::HasTab, 0, 18);
    let expected = Err((MadeProgress, problem, start));
    assert_eq!(spaces_around_keyword(&arena, start, 1, "exposes"), expected);
}

#[test]
fn words_and_bytes() {
    let start = state(b"app x", 1, 2, 0);
    let end = state(b" x", 1, 5, 0);
    assert_eq!(parse_ascii_string(start, "app"), Ok((MadeProgress, (), end)));
    assert_eq!(parse_keyword(start, "app"), Ok((MadeProgress, (), end)));
    let region = Region {
        start_line: 1,
        end_line: 1,
        start_col: 2,
        end_col: 10,
    };
    let expected = Err((NoProgress, SyntaxError::Unexpected(region), start));
    assert_eq!(parse_ascii_string(start, "platform"), expected);
    let full = state(b"app x", 1, 65533, 0);
    let expected = Err((NoProgress, SyntaxError::LineTooLong(1), full));
    assert_eq!(parse_ascii_string(full, "app"), expected);
    let byte = Ok((MadeProgress, (), state(b"pp x", 1, 3, 0)));
    assert_eq!(parse_word1(start, b'a'), byte);
    assert_eq!(parse_word1(start, b'b'), Err((NoProgress, (1, 2), start)));
    let full = state(b"a", 1, 65535, 0);
    assert_eq!(parse_word1(full, b'a'), Err((NoProgress, (1, 65535), full)));
}

#[test]
fn end_of_the_input() {
    let start = state(b"", 4, 1, 0);
    assert_eq!(parse_end_of_file(start), Ok((NoProgress, (), start)));
    let start = state(b"x", 4, 1, 0);
    let expected = Err((NoProgress, SyntaxError::NotEndOfFile(4, 1), start));
    assert_eq!(parse_end_of_file(start), expected);
}

#[test]
fn next_characters() {
    let text = "aé京𝄞";
    let start = state(text.as_bytes(), 0, 0, 0);
    assert_eq!(peek_utf8_char(&start), Ok(('a', 1)));
    assert_eq!(peek_utf8_char_at(&start, 1), Ok(('é', 2)));
    assert_eq!(peek_utf8_char_at(&start, 3), Ok(('京', 3)));
    assert_eq!(peek_utf8_char_at(&start, 6), Ok(('𝄞', 4)));
    assert_eq!(peek_utf8_char_at(&start, 10), Err(SyntaxError::Eof(Region::zero())));
    assert_eq!(peek_utf8_char_at(&start, 11), Err(SyntaxError::Eof(Region::zero())));
    assert_eq!(peek_utf8_char_at(&start, usize::MAX), Err(SyntaxError::Eof(Region::zero())));
    assert_eq!(peek_utf8_char_at(&start, 2), Err(SyntaxError::BadUtf8));
    let overlong = state(b"\xc1\x81", 0, 0, 0);
    assert_eq!(peek_utf8_char(&overlong), Err(SyntaxError::BadUtf8));
    let too_large = state(b"\xf4\x90\x80\x80", 0, 0, 0);
    assert_eq!(peek_utf8_char(&too_large), Err(SyntaxError::BadUtf8));
}
