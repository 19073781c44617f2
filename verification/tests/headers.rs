use bumpalo::Bump;
use roc_parse::ast::{
    CommentOrNewline, ExposedValues, ImportsEntry, Module, ModuleName, Spaced, Spaces, To,
};
use roc_parse::module::{
    effects, exposes_modules, exposes_values, header, imports, interface_header_help, packages,
    provides_to, provides_to_package, provides_without_to, requires_section, Terms,
};
use roc_parse::problem::{
    BadInputError, EEffects, EExposes, EHeader, EImports, EPackages, EProvides, ERequires,
    ETypedIdent, HeaderError, SyntaxError, ToProblem,
};
use roc_parse::region::{Located, Region};
use roc_parse::state::{
    MadeProgress, NoProgress, OutcomeOf, ParseResult, Parser, Progress, State, StateView,
};

#[derive(Debug, Clone, Copy, PartialEq)]
struct NotHere;

/// Text in quotes.
#[derive(Clone, Copy)]
struct Quoted;

impl<'a> Parser<'a> for Quoted {
    type Output = &'a str;

    type Error = NotHere;

    fn spec_parse(&self, _: StateView) -> OutcomeOf<'a, Self> {
        unreachable!()
    }

    fn lemma_advances(&self, _: StateView) {}

    fn parse(&self, _: &'a Bump, state: State<'a>) -> ParseResult<'a, &'a str, NotHere> {
        if state.bytes.first() != Some(&b'"') {
            return Err((NoProgress, NotHere, state));
        }
        match state.bytes[1..].iter().position(|byte| *byte == b'"') {
            Some(len) => {
                let text = std::str::from_utf8(&state.bytes[1..len + 1]).unwrap();
                Ok((MadeProgress, text, take(state, len + 2)))
            }
            None => Err((MadeProgress, NotHere, take(state, 1))),
        }
    }
}

/// A stretch of such bytes.
#[derive(Clone, Copy)]
struct Span {
    accepts: fn(u8) -> bool,
}

impl<'a> Parser<'a> for Span {
    type Output = &'a str;

    type Error = NotHere;

    fn spec_parse(&self, _: StateView) -> OutcomeOf<'a, Self> {
        unreachable!()
    }

    fn lemma_advances(&self, _: StateView) {}

    fn parse(&self, _: &'a Bump, state: State<'a>) -> ParseResult<'a, &'a str, NotHere> {
        let len = state
            .bytes
            .iter()
            .take_while(|byte| (self.accepts)(**byte))
            .count();
        if len == 0 {
            return Err((NoProgress, NotHere, state));
        }
        let text = std::str::from_utf8(&state.bytes[..len]).unwrap();
        Ok((MadeProgress, text, take(state, len)))
    }
}

/// A type that is a single word.
#[derive(Clone, Copy)]
struct TypeWord;

impl<'a> Parser<'a> for TypeWord {
    type Output = Located<&'a str>;

    type Error = NotHere;

    fn spec_parse(&self, _: StateView) -> OutcomeOf<'a, Self> {
        unreachable!()
    }

    fn lemma_advances(&self, _: StateView) {}

    fn parse(
        &self,
        arena: &'a Bump,
        state: State<'a>,
    ) -> ParseResult<'a, Located<&'a str>, NotHere> {
        let word = Span {
            accepts: |byte| byte.is_ascii_alphabetic(),
        };
        match word.parse(arena, state) {
            Ok((progress, value, end)) => {
                let region = Region {
                    start_line: state.line,
                    end_line: end.line,
                    start_col: state.column,
                    end_col: end.column,
                };
                Ok((progress, Located { region, value }, end))
            }
            Err(failure) => Err(failure),
        }
    }
}

const PACKAGE_NAME: Span = Span {
    accepts: |byte| byte.is_ascii_alphabetic() || byte == b'/',
};

const PACKAGE_ENTRY: Span = Span {
    accepts: |byte| byte.is_ascii_alphabetic() || b":\"./".contains(&byte),
};

type Header<'a> = Module<'a, &'a str, &'a str, &'a str, &'a str, &'a str>;

fn take(state: State<'_>, width: usize) -> State<'_> {
    state.advance_without_indenting(width).unwrap()
}

fn parse<'a>(
    arena: &'a Bump,
    state: State<'a>,
) -> ParseResult<'a, Header<'a>, HeaderError<EHeader<NotHere, NotHere>>> {
    let terms = Terms {
        string_literal: Quoted,
        package_name: PACKAGE_NAME,
        package_entry: PACKAGE_ENTRY,
        package_or_path: Quoted,
        type_annotation: TypeWord,
    };
    header(terms).parse(arena, state)
}

fn region(start_line: u32, start_col: u16, end_line: u32, end_col: u16) -> Region {
    Region {
        start_line,
        end_line,
        start_col,
        end_col,
    }
}

fn in_line(start_col: u16, end_col: u16) -> Region {
    region(0, start_col, 0, end_col)
}

/// The value itself, and how many layers of blank space stand around it.
fn unwrap<'a, T>(spaced: &'a Spaced<'a, T>) -> (&'a T, usize) {
    match spaced {
        Spaced::Item(value) => (value, 0),
        Spaced::SpaceBefore(inner, _) | Spaced::SpaceAfter(inner, _) => {
            let (value, layers) = unwrap(inner);
            (value, layers + 1)
        }
    }
}

fn names<'a>(list: &ExposedValues<'a>) -> Vec<(&'a str, Region)> {
    list.0
        .iter()
        .map(|entry| (*unwrap(&entry.value).0, entry.region))
        .collect()
}

fn lines<'a>(spaces: &Spaces<'a>) -> Vec<CommentOrNewline<'a>> {
    spaces.0.to_vec()
}

/// How far a failed parse came, what it complained about, and from where
/// parsing goes on.
fn failure<'a, O, E>(result: ParseResult<'a, O, E>) -> (Progress, E, State<'a>) {
    match result {
        Ok(_) => panic!("parsed"),
        Err(failure) => failure,
    }
}

#[test]
fn header_of_an_interface() {
    let arena = Bump::new();
    let source =
        b"interface Foo.Bar exposes [ baz, Qux ] imports [ base.Task.{ Task, after }, Json.Decode ]\n";
    match parse(&arena, State::new(source)) {
        Ok((MadeProgress, Module::Interface { header }, end)) => {
            assert_eq!(header.name.value, ModuleName("Foo.Bar"));
            assert_eq!(header.name.region, in_line(10, 17));
            assert_eq!(
                names(&header.exposes),
                vec![("baz", in_line(28, 31)), ("Qux", in_line(33, 36))]
            );
            assert_eq!(header.imports.0.len(), 2);
            assert_eq!(header.imports.0[0].region, in_line(49, 74));
            match header.imports.0[0].value {
                Spaced::Item(ImportsEntry::Package(package, name, values)) => {
                    assert_eq!(package, "base");
                    assert_eq!(name, ModuleName("Task"));
                    assert_eq!(
                        names(&values),
                        vec![("Task", in_line(61, 65)), ("after", in_line(67, 72))]
                    );
                }
                other => panic!("{:?}", other),
            }
            assert_eq!(header.imports.0[1].region, in_line(76, 87));
            match header.imports.0[1].value {
                Spaced::Item(ImportsEntry::Module(name, values)) => {
                    assert_eq!(name, ModuleName("Json.Decode"));
                    assert!(values.is_empty());
                }
                other => panic!("{:?}", other),
            }
            assert_eq!(end.bytes, b"\n");
            assert_eq!((end.line, end.column), (0, 89));
        }
        other => panic!("{:?}", other),
    }
}

#[test]
fn header_of_an_interface_over_lines() {
    let arena = Bump::new();
    let source = b"interface # one\n    Foo\n    exposes\n        []\n    # two\n    imports [\n        A,\n        B # three\n    ]";
    match parse(&arena, State::new(source)) {
        Ok((MadeProgress, Module::Interface { header }, end)) => {
            assert_eq!(header.name.region, region(1, 4, 1, 7));
            let comment = vec![CommentOrNewline::LineComment(" one")];
            assert_eq!(lines(&header.after_interface_keyword), comment);
            assert_eq!(lines(&header.before_exposes), vec![CommentOrNewline::Newline]);
            assert_eq!(lines(&header.after_exposes), vec![CommentOrNewline::Newline]);
            assert_eq!(
                lines(&header.before_imports),
                vec![CommentOrNewline::Newline, CommentOrNewline::LineComment(" two")]
            );
            assert_eq!(lines(&header.after_imports), vec![]);
            assert!(header.exposes.is_empty());
            assert_eq!(header.imports.0.len(), 2);
            match &header.imports.0[0].value {
                Spaced::SpaceBefore(Spaced::Item(_), before) => {
                    assert_eq!(lines(before), vec![CommentOrNewline::Newline]);
                }
                other => panic!("{:?}", other),
            }
            match &header.imports.0[1].value {
                Spaced::SpaceBefore(Spaced::SpaceAfter(Spaced::Item(_), after), before) => {
                    assert_eq!(lines(before), vec![CommentOrNewline::Newline]);
                    let comment = vec![CommentOrNewline::LineComment(" three")];
                    assert_eq!(lines(after), comment);
                }
                other => panic!("{:?}", other),
            }
            assert_eq!(header.imports.0[1].region, region(7, 8, 7, 9));
            assert_eq!((end.bytes.len(), end.line, end.column), (0, 8, 5));
        }
        other => panic!("{:?}", other),
    }
}

#[test]
fn header_of_an_app() {
    let arena = Bump::new();
    let source = b"app \"hello\" packages { base:\"./p\" } imports [ base.Task ] provides [ main ] to base";
    match parse(&arena, State::new(source)) {
        Ok((MadeProgress, Module::App { header }, end)) => {
            assert_eq!((header.name.value, header.name.region), ("hello", in_line(4, 11)));
            assert_eq!(header.packages.0.len(), 1);
            assert_eq!(header.packages.0[0].value, Spaced::Item("base:\"./p\""));
            assert_eq!(header.packages.0[0].region, in_line(23, 33));
            assert_eq!(header.imports.0.len(), 1);
            assert_eq!(header.imports.0[0].region, in_line(46, 55));
            assert_eq!(names(&header.provides), vec![("main", in_line(69, 73))]);
            assert_eq!(header.to.value, To::ExistingPackage("base"));
            assert_eq!(header.to.region, in_line(79, 83));
            assert_eq!((end.bytes.len(), end.column), (0, 83));
        }
        other => panic!("{:?}", other),
    }
}

#[test]
fn header_of_an_app_without_packages_and_imports() {
    let arena = Bump::new();
    let source = b"app \"hello\"\n    provides [ main ]\n    to \"./p\"";
    match parse(&arena, State::new(source)) {
        Ok((MadeProgress, Module::App { header }, _)) => {
            assert!(header.packages.is_empty());
            assert!(header.before_packages.is_empty());
            assert!(header.after_packages.is_empty());
            assert!(header.imports.is_empty());
            assert!(header.before_imports.is_empty());
            assert!(header.after_imports.is_empty());
            assert_eq!(lines(&header.before_provides), vec![CommentOrNewline::Newline]);
            assert_eq!(lines(&header.before_to), vec![CommentOrNewline::Newline]);
            assert_eq!(header.to.value, To::NewPackage("./p"));
            assert_eq!(header.to.region, region(2, 7, 2, 12));
        }
        other => panic!("{:?}", other),
    }
}

#[test]
fn header_of_an_app_with_one_of_packages_and_imports() {
    let arena = Bump::new();
    let source = b"app \"a\" imports [ B ] provides [] to base";
    match parse(&arena, State::new(source)) {
        Ok((MadeProgress, Module::App { header }, _)) => {
            assert!(header.packages.is_empty());
            assert_eq!(header.imports.0.len(), 1);
            assert!(header.provides.is_empty());
        }
        other => panic!("{:?}", other),
    }
    let source = b"app \"a\" packages { b } provides [] to base";
    match parse(&arena, State::new(source)) {
        Ok((MadeProgress, Module::App { header }, _)) => {
            assert_eq!(header.packages.0.len(), 1);
            assert!(header.imports.is_empty());
        }
        other => panic!("{:?}", other),
    }
}

#[test]
fn header_of_a_platform() {
    let arena = Bump::new();
    let source = b"platform fox/base
    requires { main : Task, init: Int }
    exposes [ Task, Http.Client ]
    packages {}
    imports [ Task.{ Task } ]
    provides [ mainForHost ]
    effects fx.Effect
        { putLine : Str, getLine :
            Str }";
    match parse(&arena, State::new(source)) {
        Ok((MadeProgress, Module::Platform { header }, end)) => {
            assert_eq!((header.name.value, header.name.region), ("fox/base", in_line(9, 17)));
            assert_eq!(header.requires.0.len(), 2);
            assert_eq!(header.requires.0[0].region, region(1, 15, 1, 26));
            let (main, _) = unwrap(&header.requires.0[0].value);
            assert_eq!(main.ident.value, "main");
            assert_eq!(main.ann.value, Spaced::Item("Task"));
            assert_eq!(main.ann.region, region(1, 22, 1, 26));
            assert!(main.spaces_before_colon.is_empty());
            let (init, _) = unwrap(&header.requires.0[1].value);
            assert_eq!(init.ident.value, "init");
            assert_eq!(init.ann.region, region(1, 34, 1, 37));
            let exposed: Vec<_> = header
                .exposes
                .0
                .iter()
                .map(|entry| (*unwrap(&entry.value).0, entry.region))
                .collect();
            assert_eq!(
                exposed,
                vec![
                    (ModuleName("Task"), region(2, 14, 2, 18)),
                    (ModuleName("Http.Client"), region(2, 20, 2, 31)),
                ]
            );
            assert!(header.packages.is_empty());
            assert_eq!(header.imports.0[0].region, region(4, 14, 4, 27));
            assert_eq!(names(&header.provides), vec![("mainForHost", region(5, 15, 5, 26))]);
            let effects = header.effects;
            assert_eq!(effects.effect_shortname, "fx");
            assert_eq!(effects.effect_type_name, "Effect");
            let newline = vec![CommentOrNewline::Newline];
            assert_eq!(lines(&effects.spaces_before_effects_keyword), newline);
            assert_eq!(lines(&effects.spaces_after_effects_keyword), vec![]);
            assert_eq!(lines(&effects.spaces_after_type_name), newline);
            assert_eq!(effects.entries.0.len(), 2);
            assert_eq!(effects.entries.0[0].region, region(7, 10, 7, 23));
            assert_eq!(effects.entries.0[1].region, region(7, 25, 8, 15));
            let (get_line, _) = unwrap(&effects.entries.0[1].value);
            assert_eq!(get_line.ident.value, "getLine");
            assert_eq!(get_line.ann.region, region(8, 12, 8, 15));
            match &get_line.ann.value {
                Spaced::SpaceBefore(Spaced::Item("Str"), before) => {
                    assert_eq!(lines(before), newline);
                }
                other => panic!("{:?}", other),
            }
            assert_eq!((end.bytes.len(), end.line, end.column), (0, 8, 17));
        }
        other => panic!("{:?}", other),
    }
}

#[test]
fn headers_take_bytes_off_the_front() {
    let arena = Bump::new();
    let rest = b"\n\nmain = 1\n";
    for text in [
        "interface A exposes [] imports []",
        "app \"a\" provides [] to b",
        "app \"a\"\n  packages {}\n  imports []\n  provides []\n  to b",
        "platform a requires {} exposes [] packages {} imports [] provides [] effects a.B {}",
    ] {
        let source = [text.as_bytes(), rest].concat();
        let start = State {
            bytes: &source,
            line: 3,
            column: 1,
            indent_col: 1,
        };
        match parse(&arena, start) {
            Ok((MadeProgress, _, end)) => {
                assert_eq!(end.bytes, rest);
                assert!((end.line, end.column) > (start.line, start.column));
            }
            other => panic!("{:?}", other),
        }
    }
}

#[test]
fn header_with_another_first_word() {
    let arena = Bump::new();
    for source in [&b"module Foo"[..], &b"ap"[..], &b""[..], &b" app"[..], &b"App"[..]] {
        let start = State::new(source);
        let problem = HeaderError::Syntax(SyntaxError::Unexpected(in_line(0, 9)));
        assert_eq!(failure(parse(&arena, start)), (NoProgress, problem, start));
    }
}

#[test]
fn header_in_a_line_that_is_too_long() {
    let arena = Bump::new();
    let start = State {
        bytes: b"interface Foo exposes [] imports []",
        line: 2,
        column: 65530,
        indent_col: 0,
    };
    let problem = HeaderError::Syntax(SyntaxError::LineTooLong(2));
    assert_eq!(failure(parse(&arena, start)), (NoProgress, problem, start));
}

#[test]
fn header_that_fails_leaves_the_input() {
    let arena = Bump::new();
    for source in [
        &b"app"[..],
        &b"app \"a\" packages { b provides"[..],
        &b"platform x/y requires"[..],
        &b"interface Foo exposes [] imports [ a ]"[..],
    ] {
        let start = State::new(source);
        match failure(parse(&arena, start)) {
            (MadeProgress, HeaderError::Header(_), end) => assert_eq!(end, start),
            other => panic!("{:?}", other),
        }
    }
}

fn header_problem(source: &[u8]) -> EHeader<NotHere, NotHere> {
    let arena = Bump::new();
    let start = State::new(source);
    match parse(&arena, start) {
        Err((MadeProgress, HeaderError::Header(problem), end)) if end == start => problem,
        other => panic!("{:?}", other),
    }
}

#[test]
fn problems_with_the_start_of_a_header() {
    let tab = EHeader::Space(BadInputError::HasTab, 0, 9);
    assert_eq!(header_problem(b"interface\tFoo"), tab);
    assert_eq!(header_problem(b"interface\nFoo"), EHeader::IndentStart(0, 9));
    assert_eq!(header_problem(b"interface foo"), EHeader::ModuleName(0, 10));
    assert_eq!(header_problem(b"interface Foo."), EHeader::ModuleName(0, 13));
    assert_eq!(header_problem(b"app hello"), EHeader::AppName(NotHere, 0, 4));
    assert_eq!(header_problem(b"app \"hello"), EHeader::AppName(NotHere, 0, 5));
    assert_eq!(header_problem(b"app\n\"a\""), EHeader::IndentStart(0, 3));
    assert_eq!(header_problem(b"platform 1"), EHeader::PlatformName(0, 9));
    assert_eq!(header_problem(b"platform\t"), EHeader::Space(BadInputError::HasTab, 0, 8));
}

#[test]
fn problems_with_the_parts_of_a_header() {
    let exposes = EHeader::Exposes(EExposes::Exposes(0, 14), 0, 13);
    assert_eq!(header_problem(b"interface Foo imports []"), exposes);
    let imports = EHeader::Imports(EImports::Imports(0, 24), 0, 24);
    assert_eq!(header_problem(b"interface Foo exposes []"), imports);
    let packages = EHeader::Packages(EPackages::ListStart(0, 17), 0, 7);
    assert_eq!(header_problem(b"app \"a\" packages []"), packages);
    let imports = EHeader::Imports(EImports::ListStart(0, 16), 0, 7);
    assert_eq!(header_problem(b"app \"a\" imports {}"), imports);
    let provides = EHeader::Provides(EProvides::Provides(0, 8), 0, 7);
    assert_eq!(header_problem(b"app \"a\" exposes []"), provides);
    let to = EHeader::Provides(EProvides::To(0, 20), 0, 7);
    assert_eq!(header_problem(b"app \"a\" provides [] base"), to);
    let requires = EHeader::Requires(ERequires::Requires(0, 11), 0, 10);
    assert_eq!(header_problem(b"platform a exposes []"), requires);
    let exposes = EHeader::Exposes(EExposes::ListEnd(0, 32), 0, 22);
    assert_eq!(header_problem(b"platform a requires {} exposes [a]"), exposes);
    let effects = EHeader::Effects(EEffects::Effects(0, 70), 0, 68);
    let source = b"platform a requires {} exposes [] packages {} imports [] provides []  ";
    assert_eq!(header_problem(source), effects);
}

#[test]
fn problems_with_exposed_values() {
    let arena = Bump::new();
    let cases = [
        (&b" exposes []x"[..], None),
        (&b" exposed []"[..], Some((NoProgress, EExposes::Exposes(0, 1)))),
        (&b"\nexposes []"[..], Some((NoProgress, EExposes::IndentExposes(0, 0)))),
        (&b" exposes\n[]"[..], Some((MadeProgress, EExposes::IndentListStart(0, 8)))),
        (&b" exposes {}"[..], Some((MadeProgress, EExposes::ListStart(0, 9)))),
        (&b" exposes [ a b ]"[..], Some((MadeProgress, EExposes::ListEnd(0, 13)))),
        (&b" exposes [ a, ]"[..], Some((MadeProgress, EExposes::Identifier(0, 14)))),
        (&b" exposes [ 1 ]"[..], Some((MadeProgress, EExposes::ListEnd(0, 11)))),
        (&b" exposes [ a\n]"[..], Some((MadeProgress, EExposes::IndentListEnd(0, 12)))),
        (
            &b" exposes [ a\t]"[..],
            Some((MadeProgress, EExposes::Space(BadInputError::HasTab, 0, 12))),
        ),
    ];
    for (source, expected) in cases {
        let start = State::new(source);
        match (exposes_values(&arena, start), expected) {
            (Ok((progress, (_, names), end)), None) => {
                assert_eq!(progress, MadeProgress);
                assert!(names.is_empty());
                assert_eq!(end.bytes, b"x");
            }
            (Err((progress, problem, end)), Some(expected)) => {
                assert_eq!((progress, problem), expected);
                assert_eq!(end, start);
            }
            (other, _) => panic!("{:?}", other),
        }
    }
}

#[test]
fn empty_lists_may_hold_spaces_only() {
    let arena = Bump::new();
    for source in [&b" exposes []"[..], &b" exposes [ ]"[..], &b" exposes [    ]"[..]] {
        match exposes_values(&arena, State::new(source)) {
            Ok((_, (_, names), end)) => {
                assert!(names.is_empty());
                assert_eq!(end.bytes.len(), 0);
            }
            other => panic!("{:?}", other),
        }
    }
    let start = State::new(b" exposes [\n  ]");
    let expected = (MadeProgress, EExposes::Identifier(1, 2), start);
    assert_eq!(failure(exposes_values(&arena, start)), expected);
}

#[test]
fn exposed_modules() {
    let arena = Bump::new();
    match exposes_modules(&arena, State::new(b" exposes [Foo.Bar,Baz]")) {
        Ok((MadeProgress, (_, modules), _)) => {
            let found: Vec<_> = modules.0.iter().map(|m| (m.value, m.region)).collect();
            assert_eq!(
                found,
                vec![
                    (Spaced::Item(ModuleName("Foo.Bar")), in_line(10, 17)),
                    (Spaced::Item(ModuleName("Baz")), in_line(18, 21)),
                ]
            );
        }
        other => panic!("{:?}", other),
    }
    let start = State::new(b" exposes [ Foo, bar ]");
    let expected = (MadeProgress, EExposes::Identifier(0, 16), start);
    assert_eq!(failure(exposes_modules(&arena, start)), expected);
}

#[test]
fn problems_with_imports() {
    let arena = Bump::new();
    let cases = [
        (&b" import []"[..], NoProgress, EImports::Imports(0, 1)),
        (&b"\nimports []"[..], NoProgress, EImports::IndentImports(0, 0)),
        (&b" imports\n[]"[..], MadeProgress, EImports::IndentListStart(0, 8)),
        (&b" imports ["[..], MadeProgress, EImports::ModuleName(0, 10)),
        (&b" imports [ 1 ]"[..], MadeProgress, EImports::ListEnd(0, 11)),
        (&b" imports {}"[..], MadeProgress, EImports::ListStart(0, 9)),
        (&b" imports [ base ]"[..], MadeProgress, EImports::ShorthandDot(0, 15)),
        (&b" imports [ b\xff ]"[..], MadeProgress, EImports::Shorthand(0, 12)),
        (&b" imports [ base.task ]"[..], MadeProgress, EImports::ModuleName(0, 16)),
        (&b" imports [ A.{ ]"[..], MadeProgress, EImports::SetEnd(0, 15)),
        (&b" imports [ A.{ b, 1 } ]"[..], MadeProgress, EImports::Identifier(0, 18)),
        (&b" imports [ A.b ]"[..], MadeProgress, EImports::SetStart(0, 13)),
        (&b" imports [ A.{ b\n} ]"[..], MadeProgress, EImports::IndentSetEnd(0, 16)),
        (&b" imports [ A\n]"[..], MadeProgress, EImports::IndentListEnd(0, 12)),
        (
            &b" imports [ A.{ b\t} ]"[..],
            MadeProgress,
            EImports::Space(BadInputError::HasTab, 0, 16),
        ),
    ];
    for (source, progress, problem) in cases {
        let start = State::new(source);
        assert_eq!(failure(imports(&arena, start)), (progress, problem, start));
    }
}

#[test]
fn imports_by_package_and_by_module() {
    let arena = Bump::new();
    match imports(&arena, State::new(b" imports [base.A,B.{},c.D.E.{ x }]")) {
        Ok((MadeProgress, (_, entries), end)) => {
            assert_eq!(end.bytes.len(), 0);
            let found: Vec<_> = entries
                .0
                .iter()
                .map(|entry| match *unwrap(&entry.value).0 {
                    ImportsEntry::Package(package, name, values) => {
                        (Some(package), name.0, values.0.len())
                    }
                    ImportsEntry::Module(name, values) => (None, name.0, values.0.len()),
                })
                .collect();
            assert_eq!(
                found,
                vec![(Some("base"), "A", 0), (None, "B", 0), (Some("c"), "D.E", 1)]
            );
        }
        other => panic!("{:?}", other),
    }
}

#[test]
fn problems_with_packages() {
    let arena = Bump::new();
    let cases = [
        (&b" package {}"[..], NoProgress, EPackages::Packages(0, 1)),
        (&b"\npackages {}"[..], NoProgress, EPackages::IndentPackages(0, 0)),
        (&b" packages\n{}"[..], MadeProgress, EPackages::IndentListStart(0, 9)),
        (&b" packages []"[..], MadeProgress, EPackages::ListStart(0, 10)),
        (&b" packages { a b }"[..], MadeProgress, EPackages::ListEnd(0, 14)),
        (&b" packages { a, 1 }"[..], MadeProgress, EPackages::PackageEntry(0, 15)),
        (&b" packages { a\n}"[..], MadeProgress, EPackages::IndentListEnd(0, 13)),
        (
            &b"\tpackages {}"[..],
            NoProgress,
            EPackages::Space(BadInputError::HasTab, 0, 0),
        ),
    ];
    for (source, progress, problem) in cases {
        let start = State::new(source);
        let expected = (progress, problem, start);
        assert_eq!(failure(packages(&arena, start, &PACKAGE_ENTRY)), expected);
    }
}

#[test]
fn problems_with_what_is_provided() {
    let arena = Bump::new();
    let cases = [
        (&b" provide []"[..], NoProgress, EProvides::Provides(0, 1)),
        (&b"\nprovides []"[..], NoProgress, EProvides::IndentProvides(0, 0)),
        (&b" provides\n[]"[..], MadeProgress, EProvides::IndentListStart(0, 9)),
        (&b" provides {}"[..], MadeProgress, EProvides::ListStart(0, 10)),
        (&b" provides [ a b ]"[..], MadeProgress, EProvides::ListEnd(0, 14)),
        (&b" provides [ a, 1 ]"[..], MadeProgress, EProvides::Identifier(0, 15)),
        (&b" provides [ a\n]"[..], MadeProgress, EProvides::IndentListEnd(0, 13)),
        (
            &b" provides [ a\t]"[..],
            MadeProgress,
            EProvides::Space(BadInputError::HasTab, 0, 13),
        ),
    ];
    for (source, progress, problem) in cases {
        let start = State::new(source);
        let expected = (progress, problem, start);
        assert_eq!(failure(provides_without_to(&arena, start)), expected);
        assert_eq!(failure(provides_to(&arena, start, &Quoted)), expected);
    }
    let cases = [
        (&b" provides [] on base"[..], EProvides::To(0, 13)),
        (&b" provides []\nto base"[..], EProvides::IndentTo(0, 12)),
        (&b" provides [] to\nbase"[..], EProvides::IndentListStart(0, 15)),
        (&b" provides [] to Base"[..], EProvides::Package(0, 16)),
        (&b" provides [] to \"base"[..], EProvides::Package(0, 17)),
        (&b" provides [] to b\xff"[..], EProvides::Package(0, 17)),
    ];
    for (source, problem) in cases {
        let start = State::new(source);
        let expected = (MadeProgress, problem, start);
        assert_eq!(failure(provides_to(&arena, start, &Quoted)), expected);
    }
}

#[test]
fn problems_with_what_is_required() {
    let arena = Bump::new();
    let typed = |problem, row, col| ERequires::TypedIdent(problem, row, col);
    let cases = [
        (&b" require {}"[..], NoProgress, ERequires::Requires(0, 1)),
        (&b"\nrequires {}"[..], NoProgress, ERequires::IndentRequires(0, 0)),
        (&b" requires\n{}"[..], MadeProgress, ERequires::IndentListStart(0, 9)),
        (&b" requires []"[..], MadeProgress, ERequires::ListStart(0, 10)),
        (&b" requires { a : B c }"[..], MadeProgress, ERequires::ListEnd(0, 18)),
        (&b" requires { a : B\n}"[..], MadeProgress, ERequires::IndentListEnd(0, 17)),
        (
            &b" requires { a : B\t}"[..],
            MadeProgress,
            ERequires::Space(BadInputError::HasTab, 0, 17),
        ),
        (
            &b" requires { a : B, C : D }"[..],
            MadeProgress,
            typed(ETypedIdent::Identifier(0, 19), 0, 19),
        ),
        (
            &b" requires { a = B }"[..],
            MadeProgress,
            typed(ETypedIdent::HasType(0, 14), 0, 12),
        ),
        (
            &b" requires { a\t: B }"[..],
            MadeProgress,
            typed(ETypedIdent::Space(BadInputError::HasTab, 0, 13), 0, 12),
        ),
        (
            &b" requires { a : 1 }"[..],
            MadeProgress,
            typed(ETypedIdent::Type(NotHere, 0, 16), 0, 12),
        ),
    ];
    for (source, progress, problem) in cases {
        let start = State::new(source);
        let expected = (progress, problem, start);
        assert_eq!(failure(requires_section(&arena, start, &TypeWord)), expected);
    }
}

#[test]
fn typed_names_may_go_over_any_lines() {
    let arena = Bump::new();
    let source = b" requires { a\n:\nB }";
    match requires_section(&arena, State::new(source), &TypeWord) {
        Ok((MadeProgress, (_, entries), end)) => {
            let (entry, layers) = unwrap(&entries.0[0].value);
            assert_eq!(layers, 0);
            assert_eq!(lines(&entry.spaces_before_colon), vec![CommentOrNewline::Newline]);
            assert_eq!(entry.ann.region, region(2, 0, 2, 1));
            assert_eq!((end.line, end.column), (2, 3));
        }
        other => panic!("{:?}", other),
    }
}

#[test]
fn problems_with_effects() {
    let arena = Bump::new();
    let cases = [
        (&b" effect"[..], NoProgress, EEffects::Effects(0, 1), 0),
        (&b"\neffects"[..], NoProgress, EEffects::IndentEffects(0, 0), 0),
        (&b" effects\nfx"[..], MadeProgress, EEffects::IndentListStart(0, 8), 0),
        (&b" effects Fx"[..], NoProgress, EEffects::Shorthand(0, 9), 9),
        (&b" effects fx Effect"[..], MadeProgress, EEffects::ShorthandDot(0, 11), 9),
        (&b" effects fx.effect"[..], NoProgress, EEffects::TypeName(0, 12), 12),
        (&b" effects fx.Effect\n{}"[..], MadeProgress, EEffects::IndentListStart(0, 18), 12),
        (
            &b" effects fx.Effect\t{}"[..],
            MadeProgress,
            EEffects::Space(BadInputError::HasTab, 0, 18),
            12,
        ),
        (&b" effects fx.Effect []"[..], NoProgress, EEffects::ListStart(0, 19), 19),
        (&b" effects fx.Effect { a : B c }"[..], MadeProgress, EEffects::ListEnd(0, 27), 19),
        (
            &b" effects fx.Effect { a : B\n}"[..],
            MadeProgress,
            EEffects::IndentListEnd(0, 26),
            19,
        ),
        (
            &b" effects fx.Effect { a B }"[..],
            MadeProgress,
            EEffects::TypedIdent(ETypedIdent::HasType(0, 23), 0, 21),
            19,
        ),
    ];
    for (source, progress, problem, column) in cases {
        let start = State::new(source);
        let end = take(start, column);
        let expected = (progress, problem, end);
        assert_eq!(failure(effects(&arena, start, &TypeWord)), expected);
    }
}

#[test]
fn rest_of_an_interface_header_stops_where_it_fails() {
    let arena = Bump::new();
    let start = State::new(b" Foo exposes [] provides []");
    let problem: EHeader<NotHere, NotHere> =
        EHeader::Imports(EImports::Imports(0, 16), 0, 15);
    let expected = (NoProgress, problem, take(start, 15));
    assert_eq!(failure(interface_header_help(&arena, start)), expected);
}

#[test]
fn packages_left_out_are_an_empty_list() {
    let arena = Bump::new();
    for rest in [
        " provides [ main ] to base",
        " imports [ A.{ b, c } ] provides [] to \"./p\" x",
        " imports [\n    A ]\n  provides [ d ]\n  to e",
    ] {
        let without = format!("app \"n\"{}", rest);
        let with = format!("app \"n\" packages {{}}{}", rest);
        let left = parse(&arena, State::new(arena.alloc_str(&without).as_bytes()));
        let right = parse(&arena, State::new(arena.alloc_str(&with).as_bytes()));
        match (left, right) {
            (
                Ok((MadeProgress, Module::App { header: x }, left_end)),
                Ok((MadeProgress, Module::App { header: y }, right_end)),
            ) => {
                assert_eq!(left_end.bytes, right_end.bytes);
                assert_eq!(x.name.value, y.name.value);
                assert!(x.packages.is_empty() && y.packages.is_empty());
                assert!(x.before_packages.is_empty() && y.before_packages.is_empty());
                assert!(x.after_packages.is_empty() && y.after_packages.is_empty());
                assert_eq!(x.imports.0.len(), y.imports.0.len());
                assert_eq!(lines(&x.before_imports), lines(&y.before_imports));
                assert_eq!(lines(&x.after_imports), lines(&y.after_imports));
                let texts = |list| -> Vec<&str> {
                    names(list).into_iter().map(|(name, _)| name).collect()
                };
                assert_eq!(texts(&x.provides), texts(&y.provides));
                assert_eq!(x.to.value, y.to.value);
            }
            other => panic!("{:?}", other),
        }
    }
}

#[test]
fn packages_absent_before_other_lists() {
    let arena = Bump::new();
    for source in [&b" imports []"[..], &b" provides []"[..]] {
        let start = State::new(source);
        let expected = (NoProgress, EPackages::Packages(0, 1), start);
        assert_eq!(failure(packages(&arena, start, &PACKAGE_ENTRY)), expected);
    }
}

#[test]
fn empty_packages() {
    let arena = Bump::new();
    match packages(&arena, State::new(b" packages {} x"), &PACKAGE_ENTRY) {
        Ok((MadeProgress, found, end)) => {
            assert!(found.entries.is_empty());
            assert!(found.before_packages_keyword.is_empty());
            assert!(found.after_packages_keyword.is_empty());
            assert_eq!((end.bytes, end.column), (&b" x"[..], 12));
        }
        other => panic!("{:?}", other),
    }
}

#[test]
fn short_names_turn_modules_into_packages() {
    let arena = Bump::new();
    for import in ["A", "A.B", "A.B.{ c, d }", "A.{}"] {
        for (text, package) in [("", None), ("base.", Some("base"))] {
            let source = arena.alloc_str(&format!(" imports [{}{}]", text, import));
            match imports(&arena, State::new(source.as_bytes())) {
                Ok((MadeProgress, (_, entries), end)) => {
                    assert_eq!(end.bytes.len(), 0);
                    let (found, name, values) = match *unwrap(&entries.0[0].value).0 {
                        ImportsEntry::Module(name, values) => (None, name, values),
                        ImportsEntry::Package(package, name, values) => {
                            (Some(package), name, values)
                        }
                    };
                    assert_eq!(found, package);
                    let mut parts = import.split(".{");
                    assert_eq!(Some(name.0), parts.next());
                    let expected = if import.contains("c, d") { 2 } else { 0 };
                    assert_eq!(values.0.len(), expected);
                }
                other => panic!("{:?}", other),
            }
        }
    }
}

#[test]
fn what_an_app_is_provided_to() {
    let arena = Bump::new();
    let start = State::new(b"base x");
    let expected = Ok((MadeProgress, To::ExistingPackage("base"), take(start, 4)));
    assert_eq!(provides_to_package(&arena, start, &Quoted), expected);
    let start = State::new(b"\"base\" x");
    let expected = Ok((MadeProgress, To::NewPackage("base"), take(start, 6)));
    assert_eq!(provides_to_package(&arena, start, &Quoted), expected);
    let start = State::new(b"Base");
    let expected = (NoProgress, ToProblem::New(NotHere), start);
    assert_eq!(failure(provides_to_package(&arena, start, &Quoted)), expected);
    let start = State::new(b"b\xff");
    let problem = ToProblem::Existing(SyntaxError::BadUtf8);
    let expected = (MadeProgress, problem, take(start, 1));
    assert_eq!(failure(provides_to_package(&arena, start, &Quoted)), expected);
}

#[test]
fn packages_left_out_of_a_long_source() {
    let arena = Bump::new();
    let line = "    # a comment that stands in a line of its own\n";
    let rest = format!("\n{}  provides [ main ] to base", line.repeat(2000));
    assert!(rest.len() > 65535);
    for text in ["", " packages {}"] {
        let source = arena.alloc_str(&format!("app \"n\"{}{}", text, rest));
        match parse(&arena, State::new(source.as_bytes())) {
            Ok((MadeProgress, Module::App { header }, end)) => {
                assert!(header.packages.is_empty());
                assert_eq!(header.before_provides.0.len(), 2001);
                assert_eq!(header.to.value, To::ExistingPackage("base"));
                assert_eq!((end.bytes.len(), end.line, end.column), (0, 2001, 27));
            }
            other => panic!("{:?}", other),
        }
    }
}

#[test]
fn packages_that_overrun_their_line() {
    let arena = Bump::new();
    let start = State {
        bytes: b"ab\"c\"",
        line: 0,
        column: 65534,
        indent_col: 0,
    };
    let problem = ToProblem::Existing(SyntaxError::LineTooLong(0));
    let expected = (MadeProgress, problem, take(start, 1));
    assert_eq!(failure(provides_to_package(&arena, start, &Quoted)), expected);
}
