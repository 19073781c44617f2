use bumpalo::Bump;
use roc_parse::ast::ModuleName;
use roc_parse::ident::{parse_ident, Initial};
use roc_parse::module::module_name;
use roc_parse::problem::SyntaxError;
use roc_parse::region::Region;
use roc_parse::state::{MadeProgress, NoProgress, ParseResult, Parser, State};

fn parse<'a>(arena: &'a Bump, source: &'a [u8]) -> ParseResult<'a, ModuleName<'a>, SyntaxError> {
    module_name().parse(arena, State::new(source))
}

fn state(bytes: &[u8], column: u16) -> State<'_> {
    State {
        bytes,
        line: 0,
        column,
        indent_col: 0,
    }
}

#[test]
fn module_name_of_one_part() {
    let arena = Bump::new();
    let expected = Ok((MadeProgress, ModuleName("Foo"), state(b"", 3)));
    assert_eq!(parse(&arena, b"Foo"), expected);
}

#[test]
fn module_name_of_several_parts() {
    let arena = Bump::new();
    let expected = Ok((MadeProgress, ModuleName("Foo.Bar.Baz2"), state(b" x", 12)));
    assert_eq!(parse(&arena, b"Foo.Bar.Baz2 x"), expected);
}

#[test]
fn module_name_stops_before_an_identifier() {
    let arena = Bump::new();
    let expected = Ok((MadeProgress, ModuleName("Foo.Bar"), state(b".baz", 7)));
    assert_eq!(parse(&arena, b"Foo.Bar.baz"), expected);
}

#[test]
fn module_name_stops_before_a_set() {
    let arena = Bump::new();
    let expected = Ok((MadeProgress, ModuleName("Task"), state(b".{ after }", 4)));
    assert_eq!(parse(&arena, b"Task.{ after }"), expected);
}

#[test]
fn module_name_stops_at_other_characters() {
    let arena = Bump::new();
    let underscore = Ok((MadeProgress, ModuleName("Foo"), state(b"_bar", 3)));
    assert_eq!(parse(&arena, b"Foo_bar"), underscore);
    let comma = Ok((MadeProgress, ModuleName("Foo"), state(b", Bar", 3)));
    assert_eq!(parse(&arena, b"Foo, Bar"), comma);
}

#[test]
fn module_name_takes_letters_of_any_script() {
    let arena = Bump::new();
    let source = "Été鹏1";
    let expected = Ok((MadeProgress, ModuleName("Été鹏1"), state(b"", 9)));
    assert_eq!(parse(&arena, source.as_bytes()), expected);
}

#[test]
fn module_name_takes_ascii_digits_only() {
    let arena = Bump::new();
    let source = "F1¾";
    let expected = Ok((MadeProgress, ModuleName("F1"), state("¾".as_bytes(), 2)));
    assert_eq!(parse(&arena, source.as_bytes()), expected);
}

#[test]
fn module_name_starts_with_an_uppercase_letter() {
    let arena = Bump::new();
    let region = Region {
        start_line: 0,
        end_line: 0,
        start_col: 0,
        end_col: 0,
    };
    for source in [&b"foo"[..], &b"1Foo"[..], &b".Foo"[..], "鹏".as_bytes()] {
        let expected = Err((NoProgress, SyntaxError::Unexpected(region), state(source, 0)));
        assert_eq!(parse(&arena, source), expected);
    }
}

#[test]
fn module_name_refused_at_its_place() {
    let arena = Bump::new();
    let start = State {
        bytes: b"foo",
        line: 3,
        column: 7,
        indent_col: 2,
    };
    let region = Region {
        start_line: 3,
        end_line: 3,
        start_col: 7,
        end_col: 7,
    };
    let expected = Err((NoProgress, SyntaxError::Unexpected(region), start));
    assert_eq!(module_name().parse(&arena, start), expected);
}

#[test]
fn module_name_missing() {
    let arena = Bump::new();
    let expected = Err((MadeProgress, SyntaxError::Eof(Region::zero()), state(b"", 0)));
    assert_eq!(parse(&arena, b""), expected);
}

#[test]
fn module_name_ends_in_a_dot() {
    let arena = Bump::new();
    let expected = Err((MadeProgress, SyntaxError::Eof(Region::zero()), state(b".", 3)));
    assert_eq!(parse(&arena, b"Foo."), expected);
}

#[test]
fn module_name_in_bad_utf8() {
    let arena = Bump::new();
    let at_start = Err((MadeProgress, SyntaxError::BadUtf8, state(b"\xffoo", 0)));
    assert_eq!(parse(&arena, b"\xffoo"), at_start);
    let inside = Err((MadeProgress, SyntaxError::BadUtf8, state(b"\xc3(", 2)));
    assert_eq!(parse(&arena, b"Fo\xc3("), inside);
    let behind_dot = Err((MadeProgress, SyntaxError::BadUtf8, state(b".\xed\xa0\x80", 2)));
    assert_eq!(parse(&arena, b"Fo.\xed\xa0\x80"), behind_dot);
}

#[test]
fn module_name_in_a_line_that_is_too_long() {
    let arena = Bump::new();
    let first = Err((NoProgress, SyntaxError::LineTooLong(0), state(b"Foo", 65535)));
    assert_eq!(module_name().parse(&arena, state(b"Foo", 65535)), first);
    let later = Err((NoProgress, SyntaxError::LineTooLong(0), state(b"oo", 65535)));
    assert_eq!(module_name().parse(&arena, state(b"Foo", 65534)), later);
    let part = Err((NoProgress, SyntaxError::LineTooLong(0), state(b".Bar", 65534)));
    assert_eq!(module_name().parse(&arena, state(b"F.Bar", 65533)), part);
    let fits = Ok((MadeProgress, ModuleName("Foo"), state(b"", 65535)));
    assert_eq!(module_name().parse(&arena, state(b"Foo", 65532)), fits);
}

#[test]
fn module_name_written_and_parsed_again() {
    let arena = Bump::new();
    for name in ["A", "Foo", "Foo.Bar", "A1.B2.C3", "Json.Decode.Ω"] {
        for rest in ["", " ", ",", ".{", ".x", "]"] {
            let source = format!("{}{}", name, rest);
            match parse(&arena, source.as_bytes()) {
                Ok((MadeProgress, parsed, end)) => {
                    assert_eq!(parsed.0, name);
                    assert_eq!(end.bytes, rest.as_bytes());
                    assert_eq!(usize::from(end.column), name.len());
                }
                other => panic!("{:?}", other),
            }
        }
    }
}

#[test]
fn identifiers_by_their_initial() {
    let arena = Bump::new();
    let region = Region::zero();
    let refused = |bytes| Err((NoProgress, SyntaxError::Unexpected(region), state(bytes, 0)));
    let lower = Ok((MadeProgress, "fooBar1", state(b".", 7)));
    assert_eq!(parse_ident(&arena, state(b"fooBar1.", 0), Initial::Lowercase), lower);
    assert_eq!(parse_ident(&arena, state(b"Foo", 0), Initial::Lowercase), refused(b"Foo"));
    let upper = Ok((MadeProgress, "Effect", state(b" {", 6)));
    assert_eq!(parse_ident(&arena, state(b"Effect {", 0), Initial::Uppercase), upper);
    assert_eq!(parse_ident(&arena, state(b"fx", 0), Initial::Uppercase), refused(b"fx"));
    let any = Ok((MadeProgress, "京x", state(b"]", 4)));
    assert_eq!(parse_ident(&arena, state("京x]".as_bytes(), 0), Initial::Alphabetic), any);
    assert_eq!(parse_ident(&arena, state(b"1x", 0), Initial::Alphabetic), refused(b"1x"));
}

#[test]
fn identifier_missing() {
    let arena = Bump::new();
    let expected = Err((NoProgress, SyntaxError::Eof(Region::zero()), state(b"", 5)));
    assert_eq!(parse_ident(&arena, state(b"", 5), Initial::Lowercase), expected);
}

#[test]
fn identifier_in_bad_utf8() {
    let arena = Bump::new();
    let expected = Err((MadeProgress, SyntaxError::BadUtf8, state(b"\x80", 1)));
    assert_eq!(parse_ident(&arena, state(b"a\x80", 0), Initial::Lowercase), expected);
}

#[test]
fn identifier_in_a_line_that_is_too_long() {
    let arena = Bump::new();
    let start = state(b"ab", 65535);
    let expected = Err((NoProgress, SyntaxError::LineTooLong(0), start));
    assert_eq!(parse_ident(&arena, start, Initial::Lowercase), expected);
    let expected = Err((MadeProgress, SyntaxError::LineTooLong(0), state(b"b", 65535)));
    assert_eq!(parse_ident(&arena, state(b"ab", 65534), Initial::Lowercase), expected);
}

#[test]
fn blanks_do_not_change_a_module_name() {
    let arena = Bump::new();
    for name in ["A", "Foo.Bar", "Ω1.X"] {
        for behind in ["", "Foo", ".Foo", "{}"] {
            let source = format!("{} {}", name, behind);
            match parse(&arena, source.as_bytes()) {
                Ok((MadeProgress, parsed, end)) => {
                    assert_eq!(parsed.0, name);
                    assert_eq!(end.bytes, format!(" {}", behind).as_bytes());
                }
                other => panic!("{:?}", other),
            }
        }
    }
}

#[test]
fn texts_that_are_refused_as_module_names() {
    let arena = Bump::new();
    for source in ["", "foo", "1", ".Foo", "é", "Foo.", "Foo.Bar."] {
        assert!(parse(&arena, source.as_bytes()).is_err());
    }
    for source in ["F", "Foo..", "Foo.bar.", "Foo .", "Foo-."] {
        assert!(parse(&arena, source.as_bytes()).is_ok());
    }
}

#[test]
fn ascii_characters_by_class() {
    let arena = Bump::new();
    for byte in 0..128u8 {
        let source = [byte];
        let start = state(&source, 0);
        let parses = |initial| parse_ident(&arena, start, initial).is_ok();
        assert_eq!(parses(Initial::Uppercase), byte.is_ascii_uppercase());
        assert_eq!(parses(Initial::Lowercase), byte.is_ascii_lowercase());
        assert_eq!(parses(Initial::Alphabetic), byte.is_ascii_alphabetic());
    }
}
