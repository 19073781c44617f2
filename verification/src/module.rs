//! Parsers for module headers and module bodies. Each is held to the production
//! of the same name in [`crate::grammar`].

use crate::arena::{text_into_bump_str, text_of, text_push, text_with_capacity_in};
use crate::ast::{
    views, AppHeader, Effects, ExposedValues, ImportsEntry, InterfaceHeader, List, Module,
    ModuleName, ModuleView, Packages, PlatformHeader, ProvidesTo, Spaced, Spaces, To, TypedIdent,
    TypedIdents,
};
use crate::blankspace::parse_space0;
use crate::collection::parse_collection;
use crate::combine::{
    grammar_of, group_forward, lemma_forward_advances, loc, maybe, measure, more, zero_or_more,
    Grammar, LocParser,
};
use crate::forward::{
    lemma_forward_header, lemma_forward_imports_entry, lemma_forward_module_defs,
    lemma_forward_module_name, lemma_forward_typed_ident,
};
use crate::grammar;
use crate::grammar::{
    module_name_rest, CLOSE_CURLY, CLOSE_SQUARE, COLON, COMMA, DOT, MIN_INDENT, OPEN_CURLY,
    OPEN_SQUARE,
};
use crate::ident::{
    char_continues_ident, lemma_dot_width, parse_ident, unqualified_ident, IdentParser, Initial,
};
use crate::lex::{
    parse_ascii_string, parse_end_of_file, parse_keyword, parse_word1, peek_utf8_char,
    peek_utf8_char_at,
};
use crate::problem::{
    DefsError, EEffects, EExposes, EHeader, EImports, EPackages, EProvides, ERequires, ETypedIdent,
    HeaderError, KeywordProblem, ListProblem, SpaceProblem, SyntaxError, ToProblem,
};
use crate::region::{Col, Located, Row};
use crate::state::{
    opt_outcome, outcome, unexpected, MadeProgress, NoProgress, OutcomeOf, ParseResult, Parser,
    Progress, State, StateView,
};
use bumpalo::Bump;
use core::marker::PhantomData;
use vstd::prelude::*;

verus! {

/// Parses a module name.
#[derive(Debug, Clone, Copy)]
pub struct ModuleNameParser;

/// A parser for module names, e.g. `Foo.Bar`.
pub fn module_name<'a>() -> (parser: ModuleNameParser)
    ensures
        grammar_of::<'a, ModuleNameParser>(parser) == grammar::module_name(),
{
    let parser = ModuleNameParser;
    assert(grammar_of::<'a, ModuleNameParser>(parser) =~= grammar::module_name());
    parser
}

impl<'a> Parser<'a> for ModuleNameParser {
    type Output = ModuleName<'a>;

    type Error = SyntaxError;

    open spec fn spec_parse(&self, state: StateView) -> OutcomeOf<'a, Self> {
        grammar::module_name()(state)
    }

    proof fn lemma_advances(&self, state: StateView) {
        broadcast use lemma_forward_module_name;

        lemma_forward_advances(grammar::module_name(), state);
    }

    fn parse(&self, arena: &'a Bump, state: State<'a>) -> (result: ParseResult<
        'a,
        ModuleName<'a>,
        SyntaxError,
    >) {
        let (first_letter, width) = match peek_utf8_char(&state) {
            Ok(peeked) => peeked,
            Err(reason) => return Err((MadeProgress, reason, state)),
        };
        if !first_letter.is_uppercase() {
            return Err(unexpected(0, state));
        }
        let mut buf = text_with_capacity_in(4, arena);
        text_push(&mut buf, first_letter);
        let mut at: State<'a> = match state.advance_without_indenting(width) {
            Ok(next) => next,
            Err(failure) => return Err(failure),
        };
        assert(text_of(buf) =~= seq![first_letter]);
        while at.bytes.len() > 0
            invariant
                grammar::module_name()(state@) == module_name_rest(text_of(buf), at@),
            decreases at.bytes@.len(),
        {
            match peek_utf8_char(&at) {
                Ok((ch, width)) => {
                    if char_continues_ident(ch) {
                        text_push(&mut buf, ch);
                        match at.advance_without_indenting(width) {
                            Ok(next) => {
                                at = next;
                            },
                            Err(failure) => return Err(failure),
                        }
                    } else if ch == '.' {
                        proof {
                            lemma_dot_width(at.bytes@);
                        }
                        match peek_utf8_char_at(&at, 1) {
                            Ok((next, next_width)) => {
                                if next.is_uppercase() {
                                    text_push(&mut buf, '.');
                                    text_push(&mut buf, next);
                                    match at.advance_without_indenting(width + next_width) {
                                        Ok(behind) => {
                                            at = behind;
                                        },
                                        Err(failure) => return Err(failure),
                                    }
                                } else {
                                    // There may be an identifier behind the dot,
                                    // e.g. `baz` in `Foo.Bar.baz`.
                                    let name = ModuleName::new(text_into_bump_str(buf));
                                    return Ok((MadeProgress, name, at));
                                }
                            },
                            Err(reason) => return Err((MadeProgress, reason, at)),
                        }
                    } else {
                        return Ok((MadeProgress, ModuleName::new(text_into_bump_str(buf)), at));
                    }
                },
                Err(reason) => return Err((MadeProgress, reason, at)),
            }
        }
        Ok((MadeProgress, ModuleName::new(text_into_bump_str(buf)), at))
    }
}

/// A parser for exposed values.
pub fn exposes_entry<'a>() -> (parser: LocParser<IdentParser>)
    ensures
        grammar_of::<'a, LocParser<IdentParser>>(parser) == grammar::exposes_entry(),
{
    let parser = LocParser(IdentParser { initial: Initial::Alphabetic });
    assert(grammar_of::<'a, IdentParser>(parser.0) =~= unqualified_ident());
    assert(grammar_of::<'a, LocParser<IdentParser>>(parser) =~= grammar::exposes_entry());
    parser
}

/// A parser for exposed modules.
pub fn exposes_module<'a>() -> (parser: LocParser<ModuleNameParser>)
    ensures
        grammar_of::<'a, LocParser<ModuleNameParser>>(parser) == grammar::exposes_module(),
{
    let parser = LocParser(module_name());
    assert(grammar_of::<'a, LocParser<ModuleNameParser>>(parser) =~= grammar::exposes_module());
    parser
}

/// Parses a keyword between blank space.
pub fn spaces_around_keyword<'a>(
    arena: &'a Bump,
    state: State<'a>,
    min_indent: Col,
    keyword: &str,
) -> (result: ParseResult<'a, (Spaces<'a>, Spaces<'a>), KeywordProblem>)
    ensures
        outcome(result) == grammar::spaces_around_keyword(min_indent, keyword@)(state@),
{
    let (before, state1) = match parse_space0(arena, state, min_indent) {
        Ok((_, spaces, next)) => (spaces, next),
        Err((_, SpaceProblem::Space(bad, row, col), _)) => return Err(
            (NoProgress, KeywordProblem::Space(bad, row, col), state),
        ),
        Err((_, SpaceProblem::Indent(row, col), _)) => return Err(
            (NoProgress, KeywordProblem::IndentBefore(row, col), state),
        ),
    };
    let state2 = match parse_keyword(state1, keyword) {
        Ok((_, _, next)) => next,
        Err((_, (row, col), _)) => return Err(
            (NoProgress, KeywordProblem::Expectation(row, col), state),
        ),
    };
    match parse_space0(arena, state2, min_indent) {
        Ok((_, after, end)) => Ok((MadeProgress, (before, after), end)),
        Err((_, SpaceProblem::Space(bad, row, col), _)) => Err(
            (MadeProgress, KeywordProblem::Space(bad, row, col), state),
        ),
        Err((_, SpaceProblem::Indent(row, col), _)) => Err(
            (MadeProgress, KeywordProblem::IndentAfter(row, col), state),
        ),
    }
}

fn provides_keyword_problem(problem: KeywordProblem) -> (e: EProvides)
    ensures
        e == grammar::provides_keyword_problem(problem),
{
    match problem {
        KeywordProblem::Expectation(row, col) => EProvides::Provides(row, col),
        KeywordProblem::Space(bad, row, col) => EProvides::Space(bad, row, col),
        KeywordProblem::IndentBefore(row, col) => EProvides::IndentProvides(row, col),
        KeywordProblem::IndentAfter(row, col) => EProvides::IndentListStart(row, col),
    }
}

fn provides_list_problem(problem: ListProblem<SyntaxError>) -> (e: EProvides)
    ensures
        e == grammar::provides_list_problem(problem),
{
    match problem {
        ListProblem::Start(row, col) => EProvides::ListStart(row, col),
        ListProblem::End(row, col) => EProvides::ListEnd(row, col),
        ListProblem::Space(bad, row, col) => EProvides::Space(bad, row, col),
        ListProblem::Indent(row, col) => EProvides::IndentListEnd(row, col),
        ListProblem::Entry(_, row, col) => EProvides::Identifier(row, col),
    }
}

/// Parses a `provides` list.
pub fn provides_without_to<'a>(arena: &'a Bump, state: State<'a>) -> (result: ParseResult<
    'a,
    ((Spaces<'a>, Spaces<'a>), ExposedValues<'a>),
    EProvides,
>)
    ensures
        outcome(result) == grammar::provides_without_to()(state@),
{
    proof {
        reveal(grammar::provides_without_to);
    }
    let (_, around, state1) = match spaces_around_keyword(arena, state, MIN_INDENT, "provides") {
        Ok(parsed) => parsed,
        Err((progress, problem, end)) => return Err(
            (progress, provides_keyword_problem(problem), end),
        ),
    };
    match parse_collection(
        arena,
        state1,
        OPEN_SQUARE,
        &exposes_entry(),
        COMMA,
        CLOSE_SQUARE,
        MIN_INDENT,
    ) {
        Ok((_, entries, end)) => Ok((MadeProgress, (around, entries), end)),
        Err((_, problem, _)) => Err((MadeProgress, provides_list_problem(problem), state)),
    }
}

fn exposes_keyword_problem(problem: KeywordProblem) -> (e: EExposes)
    ensures
        e == grammar::exposes_keyword_problem(problem),
{
    match problem {
        KeywordProblem::Expectation(row, col) => EExposes::Exposes(row, col),
        KeywordProblem::Space(bad, row, col) => EExposes::Space(bad, row, col),
        KeywordProblem::IndentBefore(row, col) => EExposes::IndentExposes(row, col),
        KeywordProblem::IndentAfter(row, col) => EExposes::IndentListStart(row, col),
    }
}

fn exposes_list_problem(problem: ListProblem<SyntaxError>) -> (e: EExposes)
    ensures
        e == grammar::exposes_list_problem(problem),
{
    match problem {
        ListProblem::Start(row, col) => EExposes::ListStart(row, col),
        ListProblem::End(row, col) => EExposes::ListEnd(row, col),
        ListProblem::Space(bad, row, col) => EExposes::Space(bad, row, col),
        ListProblem::Indent(row, col) => EExposes::IndentListEnd(row, col),
        ListProblem::Entry(_, row, col) => EExposes::Identifier(row, col),
    }
}

/// Parses a list of exposed values.
pub fn exposes_values<'a>(arena: &'a Bump, state: State<'a>) -> (result: ParseResult<
    'a,
    ((Spaces<'a>, Spaces<'a>), ExposedValues<'a>),
    EExposes,
>)
    ensures
        outcome(result) == grammar::exposes_values()(state@),
{
    proof {
        reveal(grammar::exposes_values);
    }
    let (_, around, state1) = match spaces_around_keyword(arena, state, MIN_INDENT, "exposes") {
        Ok(parsed) => parsed,
        Err((progress, problem, end)) => return Err(
            (progress, exposes_keyword_problem(problem), end),
        ),
    };
    match parse_collection(
        arena,
        state1,
        OPEN_SQUARE,
        &exposes_entry(),
        COMMA,
        CLOSE_SQUARE,
        MIN_INDENT,
    ) {
        Ok((_, entries, end)) => Ok((MadeProgress, (around, entries), end)),
        Err((_, problem, _)) => Err((MadeProgress, exposes_list_problem(problem), state)),
    }
}

/// Parses a list of exposed modules.
pub fn exposes_modules<'a>(arena: &'a Bump, state: State<'a>) -> (result: ParseResult<
    'a,
    ((Spaces<'a>, Spaces<'a>), List<'a, Located<Spaced<'a, ModuleName<'a>>>>),
    EExposes,
>)
    ensures
        outcome(result) == grammar::exposes_modules()(state@),
{
    proof {
        reveal(grammar::exposes_modules);
    }
    let (_, around, state1) = match spaces_around_keyword(arena, state, MIN_INDENT, "exposes") {
        Ok(parsed) => parsed,
        Err((progress, problem, end)) => return Err(
            (progress, exposes_keyword_problem(problem), end),
        ),
    };
    match parse_collection(
        arena,
        state1,
        OPEN_SQUARE,
        &exposes_module(),
        COMMA,
        CLOSE_SQUARE,
        MIN_INDENT,
    ) {
        Ok((_, entries, end)) => Ok((MadeProgress, (around, entries), end)),
        Err((_, problem, _)) => Err((MadeProgress, exposes_list_problem(problem), state)),
    }
}

/// Parses what an app is provided to.
pub fn provides_to_package<'a, P: Parser<'a>>(
    arena: &'a Bump,
    state: State<'a>,
    package_or_path: &P,
) -> (result: ParseResult<'a, To<'a, P::Output>, ToProblem<P::Error>>)
    ensures
        outcome(result) == grammar::provides_to_package(grammar_of(*package_or_path))(state@),
{
    match parse_ident(arena, state, Initial::Lowercase) {
        Ok((progress, name, end)) => Ok((progress, To::ExistingPackage(name), end)),
        Err((MadeProgress, problem, end)) => Err(
            (MadeProgress, ToProblem::Existing(problem), end),
        ),
        Err((NoProgress, _, state1)) => match package_or_path.parse(arena, state1) {
            Ok((progress, package, end)) => Ok((progress, To::NewPackage(package), end)),
            Err((progress, problem, end)) => Err((progress, ToProblem::New(problem), end)),
        },
    }
}

fn to_keyword_problem(problem: KeywordProblem) -> (e: EProvides)
    ensures
        e == grammar::to_keyword_problem(problem),
{
    match problem {
        KeywordProblem::Expectation(row, col) => EProvides::To(row, col),
        KeywordProblem::Space(bad, row, col) => EProvides::Space(bad, row, col),
        KeywordProblem::IndentBefore(row, col) => EProvides::IndentTo(row, col),
        KeywordProblem::IndentAfter(row, col) => EProvides::IndentListStart(row, col),
    }
}

/// Parses a `provides` list, and what it is provided to.
pub fn provides_to<'a, P: Parser<'a>>(
    arena: &'a Bump,
    state: State<'a>,
    package_or_path: &P,
) -> (result: ParseResult<'a, ProvidesTo<'a, P::Output>, EProvides>)
    ensures
        outcome(result) == grammar::provides_to(grammar_of(*package_or_path))(state@),
{
    proof {
        reveal(grammar::provides_to);
    }
    let (progress1, (around_provides, entries), state1) = match provides_without_to(arena, state) {
        Ok(parsed) => parsed,
        Err(failure) => return Err(failure),
    };
    let (_, around_to, state2) = match spaces_around_keyword(arena, state1, MIN_INDENT, "to") {
        Ok(parsed) => parsed,
        Err((progress2, problem, _)) => return Err(
            (progress1.or(progress2), to_keyword_problem(problem), state),
        ),
    };
    match provides_to_package(arena, state2, package_or_path) {
        Ok((_, package, end)) => {
            let provides = ProvidesTo {
                entries,
                to: Located { region: measure(state2, end), value: package },
                before_provides_keyword: around_provides.0,
                after_provides_keyword: around_provides.1,
                before_to_keyword: around_to.0,
                after_to_keyword: around_to.1,
            };
            Ok((MadeProgress, provides, end))
        },
        Err((_, _, end)) => Err((MadeProgress, EProvides::Package(end.line, end.column), state)),
    }
}

/// Parses a name with its type.
#[derive(Debug)]
pub struct TypedIdentParser<'p, A, T> {
    pub type_annotation: &'p T,
    pub annotated: PhantomData<A>,
}

impl<'a, 'p, A: View + 'a, T: Parser<'a, Output = Located<A>>> Parser<'a> for TypedIdentParser<
    'p,
    A,
    T,
> {
    type Output = TypedIdent<'a, A>;

    type Error = ETypedIdent<T::Error>;

    open spec fn spec_parse(&self, state: StateView) -> OutcomeOf<'a, Self> {
        grammar::typed_ident(grammar_of(*self.type_annotation))(state)
    }

    proof fn lemma_advances(&self, state: StateView) {
        broadcast use {group_forward, lemma_forward_typed_ident};

        lemma_forward_advances(grammar::typed_ident(grammar_of(*self.type_annotation)), state);
    }

    fn parse(&self, arena: &'a Bump, state: State<'a>) -> (result: ParseResult<
        'a,
        TypedIdent<'a, A>,
        ETypedIdent<T::Error>,
    >) {
        let (progress, name, state1) = match parse_ident(arena, state, Initial::Lowercase) {
            Ok(parsed) => parsed,
            Err((progress, _, end)) => return Err(
                (progress, ETypedIdent::Identifier(end.line, end.column), end),
            ),
        };
        let ident = Located { region: measure(state, state1), value: name };
        let (progress1, spaces_before_colon, state2) = match parse_space0(arena, state1, 0) {
            Ok(parsed) => parsed,
            Err((_, SpaceProblem::Space(bad, row, col), _)) => return Err(
                (MadeProgress, ETypedIdent::Space(bad, row, col), state),
            ),
            Err((_, SpaceProblem::Indent(row, col), _)) => return Err(
                (MadeProgress, ETypedIdent::IndentHasType(row, col), state),
            ),
        };
        let state3 = match parse_word1(state2, COLON) {
            Ok((_, _, next)) => next,
            Err((_, (row, col), _)) => return Err(
                (progress.or(progress1), ETypedIdent::HasType(row, col), state),
            ),
        };
        let (spaces, state4) = match parse_space0(arena, state3, 0) {
            Ok((_, spaces, next)) => (spaces, next),
            Err((_, SpaceProblem::Space(bad, row, col), _)) => return Err(
                (MadeProgress, ETypedIdent::Space(bad, row, col), state),
            ),
            Err((_, SpaceProblem::Indent(row, col), _)) => return Err(
                (MadeProgress, ETypedIdent::IndentType(row, col), state),
            ),
        };
        match self.type_annotation.parse(arena, state4) {
            Ok((_, annotation, end)) => {
                let ann = Located {
                    region: annotation.region,
                    value: Spaced::Item(annotation.value).with_spaces_before(arena, spaces),
                };
                Ok((MadeProgress, TypedIdent { ident, spaces_before_colon, ann }, end))
            },
            Err((_, problem, end)) => Err(
                (MadeProgress, ETypedIdent::Type(problem, end.line, end.column), state),
            ),
        }
    }
}

/// A parser for names with their types, each with its region.
pub fn typed_ident<'a, 'p, A: View + 'a, T: Parser<'a, Output = Located<A>>>(
    type_annotation: &'p T,
) -> (parser: LocParser<TypedIdentParser<'p, A, T>>)
    ensures
        grammar_of(parser) == loc(grammar::typed_ident(grammar_of(*type_annotation))),
{
    let parser = LocParser(TypedIdentParser { type_annotation, annotated: PhantomData });
    assert(grammar_of(parser.0) =~= grammar::typed_ident(grammar_of(*type_annotation)));
    assert(grammar_of(parser) =~= loc(grammar::typed_ident(grammar_of(*type_annotation))));
    parser
}

fn requires_keyword_problem<X>(problem: KeywordProblem) -> (e: ERequires<X>)
    ensures
        e == grammar::requires_keyword_problem::<X>(problem),
{
    match problem {
        KeywordProblem::Expectation(row, col) => ERequires::Requires(row, col),
        KeywordProblem::Space(bad, row, col) => ERequires::Space(bad, row, col),
        KeywordProblem::IndentBefore(row, col) => ERequires::IndentRequires(row, col),
        KeywordProblem::IndentAfter(row, col) => ERequires::IndentListStart(row, col),
    }
}

fn requires_list_problem<X>(problem: ListProblem<ETypedIdent<X>>) -> (e: ERequires<X>)
    ensures
        e == grammar::requires_list_problem::<X>(problem),
{
    match problem {
        ListProblem::Start(row, col) => ERequires::ListStart(row, col),
        ListProblem::End(row, col) => ERequires::ListEnd(row, col),
        ListProblem::Space(bad, row, col) => ERequires::Space(bad, row, col),
        ListProblem::Indent(row, col) => ERequires::IndentListEnd(row, col),
        ListProblem::Entry(e, row, col) => ERequires::TypedIdent(e, row, col),
    }
}

/// Parses a `requires` list.
pub fn requires_section<'a, A: View + 'a, T: Parser<'a, Output = Located<A>>>(
    arena: &'a Bump,
    state: State<'a>,
    type_annotation: &T,
) -> (result: ParseResult<'a, ((Spaces<'a>, Spaces<'a>), TypedIdents<'a, A>), ERequires<T::Error>>)
    ensures
        outcome(result) == grammar::requires_section(grammar_of(*type_annotation))(state@),
{
    proof {
        reveal(grammar::requires_section);
    }
    let (_, around, state1) = match spaces_around_keyword(arena, state, MIN_INDENT, "requires") {
        Ok(parsed) => parsed,
        Err((progress, problem, end)) => return Err(
            (progress, requires_keyword_problem(problem), end),
        ),
    };
    match parse_collection(
        arena,
        state1,
        OPEN_CURLY,
        &typed_ident(type_annotation),
        COMMA,
        CLOSE_CURLY,
        MIN_INDENT,
    ) {
        Ok((_, entries, end)) => Ok((MadeProgress, (around, entries), end)),
        Err((_, problem, _)) => Err((MadeProgress, requires_list_problem(problem), state)),
    }
}

fn packages_keyword_problem(problem: KeywordProblem) -> (e: EPackages)
    ensures
        e == grammar::packages_keyword_problem(problem),
{
    match problem {
        KeywordProblem::Expectation(row, col) => EPackages::Packages(row, col),
        KeywordProblem::Space(bad, row, col) => EPackages::Space(bad, row, col),
        KeywordProblem::IndentBefore(row, col) => EPackages::IndentPackages(row, col),
        KeywordProblem::IndentAfter(row, col) => EPackages::IndentListStart(row, col),
    }
}

fn packages_list_problem<X>(problem: ListProblem<X>) -> (e: EPackages)
    ensures
        e == grammar::packages_list_problem::<X>(problem),
{
    match problem {
        ListProblem::Start(row, col) => EPackages::ListStart(row, col),
        ListProblem::End(row, col) => EPackages::ListEnd(row, col),
        ListProblem::Space(bad, row, col) => EPackages::Space(bad, row, col),
        ListProblem::Indent(row, col) => EPackages::IndentListEnd(row, col),
        ListProblem::Entry(_, row, col) => EPackages::PackageEntry(row, col),
    }
}

/// Parses a `packages` list.
pub fn packages<'a, P: Parser<'a>>(
    arena: &'a Bump,
    state: State<'a>,
    package_entry: &P,
) -> (result: ParseResult<'a, Packages<'a, P::Output>, EPackages>)
    ensures
        outcome(result) == grammar::packages(grammar_of(*package_entry))(state@),
{
    proof {
        reveal(grammar::packages);
    }
    let (_, around, state1) = match spaces_around_keyword(arena, state, MIN_INDENT, "packages") {
        Ok(parsed) => parsed,
        Err((progress, problem, end)) => return Err(
            (progress, packages_keyword_problem(problem), end),
        ),
    };
    let entry = LocParser(package_entry);
    assert(grammar_of(entry.0) =~= grammar_of(*package_entry));
    assert(grammar_of(entry) =~= loc(grammar_of(*package_entry)));
    match parse_collection(arena, state1, OPEN_CURLY, &entry, COMMA, CLOSE_CURLY, MIN_INDENT) {
        Ok((_, entries, end)) => {
            let packages = Packages {
                entries,
                before_packages_keyword: around.0,
                after_packages_keyword: around.1,
            };
            Ok((MadeProgress, packages, end))
        },
        Err((_, problem, _)) => Err((MadeProgress, packages_list_problem(problem), state)),
    }
}

/// Parses the name of a package that an import comes from.
pub fn shortname<'a>(arena: &'a Bump, state: State<'a>) -> (result: ParseResult<
    'a,
    &'a str,
    EImports,
>)
    ensures
        outcome(result) == grammar::shortname()(state@),
{
    match parse_ident(arena, state, Initial::Lowercase) {
        Ok(parsed) => Ok(parsed),
        Err((progress, _, end)) => Err(
            (progress, EImports::Shorthand(end.line, end.column), end),
        ),
    }
}

/// Parses a module name. Where it fails, it reports the place.
pub fn module_name_help<'a>(arena: &'a Bump, state: State<'a>) -> (result: ParseResult<
    'a,
    ModuleName<'a>,
    (Row, Col),
>)
    ensures
        outcome(result) == grammar::module_name_help(|row: Row, col: Col| (row, col))(state@),
{
    match module_name().parse(arena, state) {
        Ok(parsed) => Ok(parsed),
        Err((progress, _, end)) => Err((progress, (end.line, end.column), end)),
    }
}

/// Parses the package in an import, where there is one.
fn opt_shortname<'a>(arena: &'a Bump, state: State<'a>) -> (result: ParseResult<
    'a,
    Option<&'a str>,
    EImports,
>)
    ensures
        opt_outcome(result) == grammar::opt_shortname()(state@),
{
    let (progress, name, state1) = match shortname(arena, state) {
        Ok(parsed) => parsed,
        Err((MadeProgress, problem, _)) => return Err((MadeProgress, problem, state)),
        Err((NoProgress, _, _)) => return Ok((NoProgress, None, state)),
    };
    match parse_word1(state1, DOT) {
        Ok((_, _, end)) => Ok((MadeProgress, Some(name), end)),
        Err((_, (row, col), _)) => match progress {
            MadeProgress => Err((MadeProgress, EImports::ShorthandDot(row, col), state)),
            NoProgress => Ok((NoProgress, None, state)),
        },
    }
}

fn import_set_problem(problem: ListProblem<SyntaxError>) -> (e: EImports)
    ensures
        e == grammar::import_set_problem(problem),
{
    match problem {
        ListProblem::Start(row, col) => EImports::SetStart(row, col),
        ListProblem::End(row, col) => EImports::SetEnd(row, col),
        ListProblem::Space(bad, row, col) => EImports::Space(bad, row, col),
        ListProblem::Indent(row, col) => EImports::IndentSetEnd(row, col),
        ListProblem::Entry(_, row, col) => EImports::Identifier(row, col),
    }
}

/// Parses the values that an import exposes, where there are any.
fn opt_exposed_values<'a>(arena: &'a Bump, state: State<'a>) -> (result: ParseResult<
    'a,
    Option<ExposedValues<'a>>,
    EImports,
>)
    ensures
        opt_outcome(result) == grammar::opt_exposed_values()(state@),
{
    let state1 = match parse_word1(state, DOT) {
        Ok((_, _, next)) => next,
        Err(_) => return Ok((NoProgress, None, state)),
    };
    match parse_collection(
        arena,
        state1,
        OPEN_CURLY,
        &exposes_entry(),
        COMMA,
        CLOSE_CURLY,
        MIN_INDENT,
    ) {
        Ok((_, values, end)) => Ok((MadeProgress, Some(values), end)),
        Err((_, problem, _)) => Err((MadeProgress, import_set_problem(problem), state)),
    }
}

/// Parses an import.
#[derive(Debug, Clone, Copy)]
pub struct ImportsEntryParser;

impl<'a> Parser<'a> for ImportsEntryParser {
    type Output = ImportsEntry<'a>;

    type Error = EImports;

    open spec fn spec_parse(&self, state: StateView) -> OutcomeOf<'a, Self> {
        grammar::imports_entry()(state)
    }

    proof fn lemma_advances(&self, state: StateView) {
        broadcast use lemma_forward_imports_entry;

        lemma_forward_advances(grammar::imports_entry(), state);
    }

    fn parse(&self, arena: &'a Bump, state: State<'a>) -> (result: ParseResult<
        'a,
        ImportsEntry<'a>,
        EImports,
    >) {
        let (progress1, opt_shortname, state1) = match opt_shortname(arena, state) {
            Ok(parsed) => parsed,
            Err(failure) => return Err(failure),
        };
        let (progress2, name, state2) = match module_name_help(arena, state1) {
            Ok(parsed) => parsed,
            Err((progress, (row, col), _)) => return Err(
                (progress1.or(progress), EImports::ModuleName(row, col), state),
            ),
        };
        let (progress3, opt_values, end) = match opt_exposed_values(arena, state2) {
            Ok(parsed) => parsed,
            Err((progress, problem, _)) => return Err(
                (progress1.or(progress2).or(progress), problem, state),
            ),
        };
        let exposed_values = match opt_values {
            Some(values) => values,
            None => List::empty(arena),
        };
        let entry = match opt_shortname {
            Some(shortname) => ImportsEntry::Package(shortname, name, exposed_values),
            None => ImportsEntry::Module(name, exposed_values),
        };
        Ok((progress1.or(progress2).or(progress3), entry, end))
    }
}

/// A parser for imports, each with its region.
pub fn imports_entry<'a>() -> (parser: LocParser<ImportsEntryParser>)
    ensures
        grammar_of::<'a, LocParser<ImportsEntryParser>>(parser) == loc(grammar::imports_entry()),
{
    let parser = LocParser(ImportsEntryParser);
    assert(grammar_of::<'a, ImportsEntryParser>(parser.0) =~= grammar::imports_entry());
    assert(grammar_of::<'a, LocParser<ImportsEntryParser>>(parser) =~= loc(
        grammar::imports_entry(),
    ));
    parser
}

fn imports_keyword_problem(problem: KeywordProblem) -> (e: EImports)
    ensures
        e == grammar::imports_keyword_problem(problem),
{
    match problem {
        KeywordProblem::Expectation(row, col) => EImports::Imports(row, col),
        KeywordProblem::Space(bad, row, col) => EImports::Space(bad, row, col),
        KeywordProblem::IndentBefore(row, col) => EImports::IndentImports(row, col),
        KeywordProblem::IndentAfter(row, col) => EImports::IndentListStart(row, col),
    }
}

fn imports_list_problem(problem: ListProblem<EImports>) -> (e: EImports)
    ensures
        e == grammar::imports_list_problem(problem),
{
    match problem {
        ListProblem::Start(row, col) => EImports::ListStart(row, col),
        ListProblem::End(row, col) => EImports::ListEnd(row, col),
        ListProblem::Space(bad, row, col) => EImports::Space(bad, row, col),
        ListProblem::Indent(row, col) => EImports::IndentListEnd(row, col),
        ListProblem::Entry(e, _, _) => e,
    }
}

/// The blank space around the keyword `imports`, and the imports.
pub type Imports<'a> = (
    (Spaces<'a>, Spaces<'a>),
    List<'a, Located<Spaced<'a, ImportsEntry<'a>>>>,
);

/// Parses an `imports` list.
pub fn imports<'a>(arena: &'a Bump, state: State<'a>) -> (result: ParseResult<
    'a,
    Imports<'a>,
    EImports,
>)
    ensures
        outcome(result) == grammar::imports()(state@),
{
    proof {
        reveal(grammar::imports);
    }
    let (_, around, state1) = match spaces_around_keyword(arena, state, MIN_INDENT, "imports") {
        Ok(parsed) => parsed,
        Err((progress, problem, end)) => return Err(
            (progress, imports_keyword_problem(problem), end),
        ),
    };
    match parse_collection(
        arena,
        state1,
        OPEN_SQUARE,
        &imports_entry(),
        COMMA,
        CLOSE_SQUARE,
        MIN_INDENT,
    ) {
        Ok((_, entries, end)) => Ok((MadeProgress, (around, entries), end)),
        Err((_, problem, _)) => Err((MadeProgress, imports_list_problem(problem), state)),
    }
}

fn effects_keyword_problem<X>(problem: KeywordProblem) -> (e: EEffects<X>)
    ensures
        e == grammar::effects_keyword_problem::<X>(problem),
{
    match problem {
        KeywordProblem::Expectation(row, col) => EEffects::Effects(row, col),
        KeywordProblem::Space(bad, row, col) => EEffects::Space(bad, row, col),
        KeywordProblem::IndentBefore(row, col) => EEffects::IndentEffects(row, col),
        KeywordProblem::IndentAfter(row, col) => EEffects::IndentListStart(row, col),
    }
}

fn effects_list_problem<X>(problem: ListProblem<ETypedIdent<X>>) -> (e: EEffects<X>)
    ensures
        e == grammar::effects_list_problem::<X>(problem),
{
    match problem {
        ListProblem::Start(row, col) => EEffects::ListStart(row, col),
        ListProblem::End(row, col) => EEffects::ListEnd(row, col),
        ListProblem::Space(bad, row, col) => EEffects::Space(bad, row, col),
        ListProblem::Indent(row, col) => EEffects::IndentListEnd(row, col),
        ListProblem::Entry(e, row, col) => EEffects::TypedIdent(e, row, col),
    }
}

/// Parses the name of an effect type.
fn effect_shortname<'a, X>(arena: &'a Bump, state: State<'a>) -> (result: ParseResult<
    'a,
    &'a str,
    EEffects<X>,
>)
    ensures
        outcome(result) == grammar::effect_shortname::<X>()(state@),
{
    let (progress, name, state1) = match parse_ident(arena, state, Initial::Lowercase) {
        Ok(parsed) => parsed,
        Err((progress, _, end)) => return Err(
            (progress, EEffects::Shorthand(end.line, end.column), state),
        ),
    };
    match parse_word1(state1, DOT) {
        Ok((_, _, end)) => Ok((MadeProgress, name, end)),
        Err((_, (row, col), _)) => Err((progress, EEffects::ShorthandDot(row, col), state)),
    }
}

/// Parses an effect type and the blank space behind it.
fn effect_type_name<'a, X>(arena: &'a Bump, state: State<'a>) -> (result: ParseResult<
    'a,
    (&'a str, Spaces<'a>),
    EEffects<X>,
>)
    ensures
        outcome(result) == grammar::effect_type_name::<X>()(state@),
{
    let (progress1, name, state1) = match parse_ident(arena, state, Initial::Uppercase) {
        Ok(parsed) => parsed,
        Err((progress, _, end)) => return Err(
            (progress, EEffects::TypeName(end.line, end.column), end),
        ),
    };
    match parse_space0(arena, state1, MIN_INDENT) {
        Ok((progress2, spaces, end)) => Ok((progress1.or(progress2), (name, spaces), end)),
        Err((_, SpaceProblem::Space(bad, row, col), _)) => Err(
            (MadeProgress, EEffects::Space(bad, row, col), state),
        ),
        Err((_, SpaceProblem::Indent(row, col), _)) => Err(
            (MadeProgress, EEffects::IndentListStart(row, col), state),
        ),
    }
}

/// Parses an `effects` list.
pub fn effects<'a, A: View + 'a, T: Parser<'a, Output = Located<A>>>(
    arena: &'a Bump,
    state: State<'a>,
    type_annotation: &T,
) -> (result: ParseResult<'a, Effects<'a, A>, EEffects<T::Error>>)
    ensures
        outcome(result) == grammar::effects(grammar_of(*type_annotation))(state@),
{
    proof {
        reveal(grammar::effects);
    }
    let (_, around, state1) = match spaces_around_keyword(arena, state, MIN_INDENT, "effects") {
        Ok(parsed) => parsed,
        Err((progress, problem, end)) => return Err(
            (progress, effects_keyword_problem(problem), end),
        ),
    };
    let (_, shortname, state2) = match effect_shortname(arena, state1) {
        Ok(parsed) => parsed,
        Err(failure) => return Err(failure),
    };
    let (_, (name, spaces_after_type_name), state3) = match effect_type_name(arena, state2) {
        Ok(parsed) => parsed,
        Err(failure) => return Err(failure),
    };
    match parse_collection(
        arena,
        state3,
        OPEN_CURLY,
        &typed_ident(type_annotation),
        COMMA,
        CLOSE_CURLY,
        MIN_INDENT,
    ) {
        Ok((_, entries, end)) => {
            let effects = Effects {
                spaces_before_effects_keyword: around.0,
                spaces_after_effects_keyword: around.1,
                spaces_after_type_name,
                effect_shortname: shortname,
                effect_type_name: name,
                entries,
            };
            Ok((MadeProgress, effects, end))
        },
        Err((progress, problem, end)) => Err((progress, effects_list_problem(problem), end)),
    }
}

/// Parses the header of an interface, behind its first word.
pub fn interface_header_help<'a, S, T>(arena: &'a Bump, state: State<'a>) -> (result: ParseResult<
    'a,
    InterfaceHeader<'a>,
    EHeader<S, T>,
>)
    ensures
        outcome(result) == grammar::interface_header_help::<S, T>()(state@),
{
    proof {
        reveal(grammar::interface_header_help);
    }
    let (_, after_interface_keyword, state1) = match parse_space0(arena, state, MIN_INDENT) {
        Ok(parsed) => parsed,
        Err((progress, problem, end)) => return Err((progress, header_space_problem(problem), end)),
    };
    let (_, name, state2) = match module_name_help(arena, state1) {
        Ok(parsed) => parsed,
        Err((progress, (row, col), end)) => return Err(
            (progress, EHeader::ModuleName(row, col), end),
        ),
    };
    let (_, (around_exposes, exposes), state3) = match exposes_values(arena, state2) {
        Ok(parsed) => parsed,
        Err((progress, e, end)) => return Err(
            (progress, EHeader::Exposes(e, end.line, end.column), end),
        ),
    };
    let (_, (around_imports, imports), state4) = match imports(arena, state3) {
        Ok(parsed) => parsed,
        Err((progress, e, end)) => return Err(
            (progress, EHeader::Imports(e, end.line, end.column), end),
        ),
    };
    let header = InterfaceHeader {
        name: Located { region: measure(state1, state2), value: name },
        exposes,
        imports,
        after_interface_keyword,
        before_exposes: around_exposes.0,
        after_exposes: around_exposes.1,
        before_imports: around_imports.0,
        after_imports: around_imports.1,
    };
    Ok((MadeProgress, header, state4))
}

fn header_space_problem<S, T>(problem: SpaceProblem) -> (e: EHeader<S, T>)
    ensures
        e == (match problem {
            SpaceProblem::Space(bad, row, col) => EHeader::<S, T>::Space(bad, row, col),
            SpaceProblem::Indent(row, col) => EHeader::<S, T>::IndentStart(row, col),
        }),
{
    match problem {
        SpaceProblem::Space(bad, row, col) => EHeader::Space(bad, row, col),
        SpaceProblem::Indent(row, col) => EHeader::IndentStart(row, col),
    }
}

/// Parses a `packages` list, where there is one.
fn opt_packages<'a, P: Parser<'a>>(
    arena: &'a Bump,
    state: State<'a>,
    package_entry: &P,
) -> (result: ParseResult<'a, Option<Packages<'a, P::Output>>, EPackages>)
    ensures
        opt_outcome(result) == maybe(grammar::packages(grammar_of(*package_entry)))(state@),
{
    match packages(arena, state, package_entry) {
        Ok((progress, packages, end)) => Ok((progress, Some(packages), end)),
        Err((MadeProgress, e, end)) => Err((MadeProgress, e, end)),
        Err((NoProgress, _, _)) => Ok((NoProgress, None, state)),
    }
}

/// Parses an `imports` list, where there is one.
fn opt_imports<'a>(arena: &'a Bump, state: State<'a>) -> (result: ParseResult<
    'a,
    Option<Imports<'a>>,
    EImports,
>)
    ensures
        opt_outcome(result) == maybe(grammar::imports())(state@),
{
    match imports(arena, state) {
        Ok((progress, imports, end)) => Ok((progress, Some(imports), end)),
        Err((MadeProgress, e, end)) => Err((MadeProgress, e, end)),
        Err((NoProgress, _, _)) => Ok((NoProgress, None, state)),
    }
}

/// Parses the header of an app, behind its first word.
pub fn app_header_help<'a, S: Parser<'a>, E: Parser<'a>, P: Parser<'a>, T>(
    arena: &'a Bump,
    state: State<'a>,
    string_literal: &S,
    package_entry: &E,
    package_or_path: &P,
) -> (result: ParseResult<
    'a,
    AppHeader<'a, S::Output, E::Output, P::Output>,
    EHeader<S::Error, T>,
>)
    ensures
        outcome(result) == grammar::app_header_help::<_, _, _, _, _, _, T>(
            grammar_of(*string_literal),
            grammar_of(*package_entry),
            grammar_of(*package_or_path),
        )(state@),
{
    proof {
        reveal(grammar::app_header_help);
    }
    let (_, after_app_keyword, state1) = match parse_space0(arena, state, MIN_INDENT) {
        Ok(parsed) => parsed,
        Err((progress, problem, end)) => return Err((progress, header_space_problem(problem), end)),
    };
    let (_, name, state2) = match string_literal.parse(arena, state1) {
        Ok(parsed) => parsed,
        Err((progress, e, end)) => return Err(
            (progress, EHeader::AppName(e, end.line, end.column), end),
        ),
    };
    let (_, opt_pkgs, state3) = match opt_packages(arena, state2, package_entry) {
        Ok(parsed) => parsed,
        Err((progress, e, end)) => return Err(
            (progress, EHeader::Packages(e, end.line, end.column), end),
        ),
    };
    let (_, opt_imports, state4) = match opt_imports(arena, state3) {
        Ok(parsed) => parsed,
        Err((progress, e, end)) => return Err(
            (progress, EHeader::Imports(e, end.line, end.column), end),
        ),
    };
    let (_, provides, state5) = match provides_to(arena, state4, package_or_path) {
        Ok(parsed) => parsed,
        Err((progress, e, end)) => return Err(
            (progress, EHeader::Provides(e, end.line, end.column), end),
        ),
    };
    let pkgs = match opt_pkgs {
        Some(pkgs) => pkgs,
        None => Packages {
            entries: List::empty(arena),
            before_packages_keyword: List::empty(arena),
            after_packages_keyword: List::empty(arena),
        },
    };
    let (around_imports, imports): Imports<'a> = match opt_imports {
        Some(imports) => imports,
        None => ((List::empty(arena), List::empty(arena)), List::empty(arena)),
    };
    let header = AppHeader {
        name: Located { region: measure(state1, state2), value: name },
        packages: pkgs.entries,
        imports,
        provides: provides.entries,
        to: provides.to,
        after_app_keyword,
        before_packages: pkgs.before_packages_keyword,
        after_packages: pkgs.after_packages_keyword,
        before_imports: around_imports.0,
        after_imports: around_imports.1,
        before_provides: provides.before_provides_keyword,
        after_provides: provides.after_provides_keyword,
        before_to: provides.before_to_keyword,
        after_to: provides.after_to_keyword,
    };
    Ok((MadeProgress, header, state5))
}

/// Parses the header of a platform, behind its first word.
pub fn platform_header_help<
    'a,
    A: View + 'a,
    N: Parser<'a>,
    E: Parser<'a>,
    T: Parser<'a, Output = Located<A>>,
    S,
>(
    arena: &'a Bump,
    state: State<'a>,
    package_name: &N,
    package_entry: &E,
    type_annotation: &T,
) -> (result: ParseResult<'a, PlatformHeader<'a, N::Output, E::Output, A>, EHeader<S, T::Error>>)
    ensures
        outcome(result) == grammar::platform_header_help::<_, _, _, _, _, _, S>(
            grammar_of(*package_name),
            grammar_of(*package_entry),
            grammar_of(*type_annotation),
        )(state@),
{
    proof {
        reveal(grammar::platform_header_help);
    }
    let (_, after_platform_keyword, state1) = match parse_space0(arena, state, MIN_INDENT) {
        Ok(parsed) => parsed,
        Err((progress, problem, end)) => return Err((progress, header_space_problem(problem), end)),
    };
    let (_, name, state2) = match package_name.parse(arena, state1) {
        Ok(parsed) => parsed,
        Err((progress, _, end)) => return Err(
            (progress, EHeader::PlatformName(end.line, end.column), end),
        ),
    };
    let (_, (around_requires, required), state3) = match requires_section(
        arena,
        state2,
        type_annotation,
    ) {
        Ok(parsed) => parsed,
        Err((progress, e, end)) => return Err(
            (progress, EHeader::Requires(e, end.line, end.column), end),
        ),
    };
    let (_, (around_exposes, exposes), state4) = match exposes_modules(arena, state3) {
        Ok(parsed) => parsed,
        Err((progress, e, end)) => return Err(
            (progress, EHeader::Exposes(e, end.line, end.column), end),
        ),
    };
    let (_, packages, state5) = match packages(arena, state4, package_entry) {
        Ok(parsed) => parsed,
        Err((progress, e, end)) => return Err(
            (progress, EHeader::Packages(e, end.line, end.column), end),
        ),
    };
    let (_, (around_imports, imports), state6) = match imports(arena, state5) {
        Ok(parsed) => parsed,
        Err((progress, e, end)) => return Err(
            (progress, EHeader::Imports(e, end.line, end.column), end),
        ),
    };
    let (_, (around_provides, provides), state7) = match provides_without_to(arena, state6) {
        Ok(parsed) => parsed,
        Err((progress, e, end)) => return Err(
            (progress, EHeader::Provides(e, end.line, end.column), end),
        ),
    };
    let (_, effects, state8) = match effects(arena, state7, type_annotation) {
        Ok(parsed) => parsed,
        Err((progress, e, end)) => return Err(
            (progress, EHeader::Effects(e, end.line, end.column), end),
        ),
    };
    let header = PlatformHeader {
        name: Located { region: measure(state1, state2), value: name },
        requires: required,
        exposes,
        packages: packages.entries,
        imports,
        provides,
        effects,
        after_platform_keyword,
        before_requires: around_requires.0,
        after_requires: around_requires.1,
        before_exposes: around_exposes.0,
        after_exposes: around_exposes.1,
        before_packages: packages.before_packages_keyword,
        after_packages: packages.after_packages_keyword,
        before_imports: around_imports.0,
        after_imports: around_imports.1,
        before_provides: around_provides.0,
        after_provides: around_provides.1,
    };
    Ok((MadeProgress, header, state8))
}

/// Parses the header of an interface, as part of a module.
pub fn interface_header<'a, S, T>(arena: &'a Bump, state: State<'a>) -> (result: ParseResult<
    'a,
    InterfaceHeader<'a>,
    HeaderError<EHeader<S, T>>,
>)
    ensures
        outcome(result) == grammar::interface_header::<S, T>()(state@),
{
    match interface_header_help(arena, state) {
        Ok(parsed) => Ok(parsed),
        Err((progress, e, end)) => Err((progress, HeaderError::Header(e), end)),
    }
}

/// Parses the header of an app, as part of a module.
pub fn app_header<'a, S: Parser<'a>, E: Parser<'a>, P: Parser<'a>, T>(
    arena: &'a Bump,
    state: State<'a>,
    string_literal: &S,
    package_entry: &E,
    package_or_path: &P,
) -> (result: ParseResult<
    'a,
    AppHeader<'a, S::Output, E::Output, P::Output>,
    HeaderError<EHeader<S::Error, T>>,
>)
    ensures
        outcome(result) == grammar::app_header::<_, _, _, _, _, _, T>(
            grammar_of(*string_literal),
            grammar_of(*package_entry),
            grammar_of(*package_or_path),
        )(state@),
{
    match app_header_help(arena, state, string_literal, package_entry, package_or_path) {
        Ok(parsed) => Ok(parsed),
        Err((progress, e, end)) => Err((progress, HeaderError::Header(e), end)),
    }
}

/// Parses the header of a platform, as part of a module.
pub fn platform_header<
    'a,
    A: View + 'a,
    N: Parser<'a>,
    E: Parser<'a>,
    T: Parser<'a, Output = Located<A>>,
    S,
>(
    arena: &'a Bump,
    state: State<'a>,
    package_name: &N,
    package_entry: &E,
    type_annotation: &T,
) -> (result: ParseResult<
    'a,
    PlatformHeader<'a, N::Output, E::Output, A>,
    HeaderError<EHeader<S, T::Error>>,
>)
    ensures
        outcome(result) == grammar::platform_header::<_, _, _, _, _, _, S>(
            grammar_of(*package_name),
            grammar_of(*package_entry),
            grammar_of(*type_annotation),
        )(state@),
{
    match platform_header_help(arena, state, package_name, package_entry, type_annotation) {
        Ok(parsed) => Ok(parsed),
        Err((progress, e, end)) => Err((progress, HeaderError::Header(e), end)),
    }
}

/// The parsers for the terms of other grammars that a header holds.
#[derive(Debug, Clone, Copy)]
pub struct Terms<S, N, E, P, T> {
    /// Parses the name of an app.
    pub string_literal: S,
    /// Parses the name of a platform.
    pub package_name: N,
    /// Parses an entry of a `packages` list.
    pub package_entry: E,
    /// Parses a package that an app is provided to.
    pub package_or_path: P,
    /// Parses a type.
    pub type_annotation: T,
}

impl<S, N, E, P, T> Terms<S, N, E, P, T> {
    /// The grammar of headers with these terms.
    pub open spec fn header<'a, A: View + 'a>(self) -> Grammar<
        ModuleView<
            <S::Output as View>::V,
            <N::Output as View>::V,
            <E::Output as View>::V,
            <P::Output as View>::V,
            A::V,
        >,
        HeaderError<EHeader<S::Error, T::Error>>,
    > where
        S: Parser<'a>,
        N: Parser<'a>,
        E: Parser<'a>,
        P: Parser<'a>,
        T: Parser<'a, Output = Located<A>>,
     {
        grammar::header(
            grammar_of(self.string_literal),
            grammar_of(self.package_name),
            grammar_of(self.package_entry),
            grammar_of(self.package_or_path),
            grammar_of(self.type_annotation),
        )
    }
}

/// Parses the header of a module.
#[derive(Debug)]
pub struct HeaderParser<A, S, N, E, P, T> {
    pub terms: Terms<S, N, E, P, T>,
    pub annotated: PhantomData<A>,
}

/// A parser for the header of a module, given the parsers for its terms.
pub fn header<
    'a,
    A: View + 'a,
    S: Parser<'a>,
    N: Parser<'a>,
    E: Parser<'a>,
    P: Parser<'a>,
    T: Parser<'a, Output = Located<A>>,
>(terms: Terms<S, N, E, P, T>) -> (parser: HeaderParser<A, S, N, E, P, T>)
    ensures
        grammar_of(parser) == terms.header(),
{
    let parser = HeaderParser { terms, annotated: PhantomData };
    assert(grammar_of(parser) =~= terms.header());
    parser
}

impl<
    'a,
    A: View + 'a,
    S: Parser<'a>,
    N: Parser<'a>,
    E: Parser<'a>,
    P: Parser<'a>,
    T: Parser<'a, Output = Located<A>>,
> Parser<'a> for HeaderParser<A, S, N, E, P, T> {
    type Output = Module<'a, S::Output, N::Output, E::Output, P::Output, A>;

    type Error = HeaderError<EHeader<S::Error, T::Error>>;

    open spec fn spec_parse(&self, state: StateView) -> OutcomeOf<'a, Self> {
        self.terms.header()(state)
    }

    proof fn lemma_advances(&self, state: StateView) {
        broadcast use {group_forward, lemma_forward_header};

        lemma_forward_advances(self.terms.header(), state);
    }

    fn parse(&self, arena: &'a Bump, state: State<'a>) -> (result: ParseResult<
        'a,
        Module<'a, S::Output, N::Output, E::Output, P::Output, A>,
        HeaderError<EHeader<S::Error, T::Error>>,
    >) {
        let terms = &self.terms;
        if let Ok((_, _, state1)) = parse_ascii_string(state, "app") {
            return match app_header(
                arena,
                state1,
                &terms.string_literal,
                &terms.package_entry,
                &terms.package_or_path,
            ) {
                Ok((_, header, end)) => Ok((MadeProgress, Module::App { header }, end)),
                Err((_, e, _)) => Err((MadeProgress, e, state)),
            };
        }
        if let Ok((_, _, state1)) = parse_ascii_string(state, "platform") {
            return match platform_header(
                arena,
                state1,
                &terms.package_name,
                &terms.package_entry,
                &terms.type_annotation,
            ) {
                Ok((_, header, end)) => Ok((MadeProgress, Module::Platform { header }, end)),
                Err((_, e, _)) => Err((MadeProgress, e, state)),
            };
        }
        match parse_ascii_string(state, "interface") {
            Ok((_, _, state1)) => match interface_header(arena, state1) {
                Ok((_, header, end)) => Ok((MadeProgress, Module::Interface { header }, end)),
                Err((_, e, _)) => Err((MadeProgress, e, state)),
            },
            Err((_, e, _)) => Err((NoProgress, HeaderError::Syntax(e), state)),
        }
    }
}

/// Parses a definition in a module body, with the blank space around it.
fn module_def<'a, D: Parser<'a>>(arena: &'a Bump, state: State<'a>, def: &D) -> (result:
    ParseResult<'a, Located<Spaced<'a, D::Output>>, DefsError<D::Error>>)
    ensures
        outcome(result) == grammar::module_def(grammar_of(*def))(state@),
{
    let (progress1, before, state1) = match parse_space0(arena, state, 0) {
        Ok(parsed) => parsed,
        Err((progress, problem, end)) => return Err((progress, defs_space_problem(problem), end)),
    };
    let (progress2, value, state2) = match def.parse(arena, state1) {
        Ok(parsed) => parsed,
        Err((progress, e, _)) => return Err((progress1.or(progress), DefsError::Def(e), state)),
    };
    let region = measure(state1, state2);
    let (progress3, after, state3) = match parse_space0(arena, state2, 0) {
        Ok(parsed) => parsed,
        Err((progress, problem, _)) => return Err(
            (progress1.or(progress2.or(progress)), defs_space_problem(problem), state),
        ),
    };
    let value = Spaced::Item(value).with_spaces_after(arena, after).with_spaces_before(
        arena,
        before,
    );
    Ok((progress1.or(progress2.or(progress3)), Located { region, value }, state3))
}

fn defs_space_problem<X>(problem: SpaceProblem) -> (e: DefsError<X>)
    ensures
        e == (match problem {
            SpaceProblem::Space(bad, row, col) => DefsError::<X>::Syntax(
                SyntaxError::Space(bad, row, col),
            ),
            SpaceProblem::Indent(row, col) => DefsError::<X>::Syntax(
                SyntaxError::OutdentedTooFar(row, col),
            ),
        }),
{
    match problem {
        SpaceProblem::Space(bad, row, col) => DefsError::Syntax(SyntaxError::Space(bad, row, col)),
        SpaceProblem::Indent(row, col) => DefsError::Syntax(SyntaxError::OutdentedTooFar(row, col)),
    }
}

/// A list of definitions.
pub type Defs<'a, D> = List<'a, Located<Spaced<'a, D>>>;

/// Parses as many definitions as there are.
fn some_defs<'a, D: Parser<'a>>(arena: &'a Bump, state: State<'a>, def: &D) -> (result: ParseResult<
    'a,
    Defs<'a, D::Output>,
    DefsError<D::Error>,
>)
    ensures
        outcome(result) == zero_or_more(grammar::module_def(grammar_of(*def)))(state@),
{
    let ghost p = grammar::module_def(grammar_of(*def));
    let (first, mut at): (Located<Spaced<'a, D::Output>>, State<'a>) = match module_def(
        arena,
        state,
        def,
    ) {
        Ok((_, first, next)) => (first, next),
        Err((MadeProgress, e, end)) => return Err((MadeProgress, e, end)),
        Err((NoProgress, _, _)) => return Ok((NoProgress, List::empty(arena), state)),
    };
    let mut defs: Vec<Located<Spaced<'a, D::Output>>> = Vec::new();
    defs.push(first);
    assert(views(defs@) =~= seq![first@]);
    let ghost start = at@;
    loop
        invariant
            p == grammar::module_def(grammar_of(*def)),
            p(state@) matches Ok((_, a, next)) && a == first@ && next == start,
            more(p, seq![first@], start) == more(p, views(defs@), at@),
        decreases at.bytes@.len(),
    {
        match module_def(arena, at, def) {
            Ok((_, next, end)) => {
                let ghost found = views(defs@);
                defs.push(next);
                assert(views(defs@) =~= found.push(next@));
                if end.bytes.len() < at.bytes.len() {
                    at = end;
                } else {
                    let progress = progress_between(state, end);
                    return Ok((progress, List::from_vec(arena, defs), end));
                }
            },
            Err((MadeProgress, e, end)) => {
                return Err((MadeProgress, e, end));
            },
            Err((NoProgress, _, end)) => {
                let progress = progress_between(state, end);
                return Ok((progress, List::from_vec(arena, defs), end));
            },
        }
    }
}

fn progress_between<'a>(before: State<'a>, after: State<'a>) -> (progress: Progress)
    ensures
        progress == Progress::between(before@, after@),
{
    if after.bytes.len() < before.bytes.len() {
        MadeProgress
    } else {
        NoProgress
    }
}

/// Parses a module body.
#[derive(Debug, Clone, Copy)]
pub struct ModuleDefsParser<D> {
    pub def: D,
}

/// A parser for a module body, given the parser for its definitions. It parses
/// to the end of the input.
pub fn module_defs<'a, D: Parser<'a>>(def: D) -> (parser: ModuleDefsParser<D>)
    ensures
        grammar_of(parser) == grammar::module_defs(grammar_of(def)),
{
    let parser = ModuleDefsParser { def };
    assert(grammar_of(parser) =~= grammar::module_defs(grammar_of(def)));
    parser
}

impl<'a, D: Parser<'a>> Parser<'a> for ModuleDefsParser<D> {
    type Output = Defs<'a, D::Output>;

    type Error = DefsError<D::Error>;

    open spec fn spec_parse(&self, state: StateView) -> OutcomeOf<'a, Self> {
        grammar::module_defs(grammar_of(self.def))(state)
    }

    proof fn lemma_advances(&self, state: StateView) {
        broadcast use {group_forward, lemma_forward_module_defs};

        lemma_forward_advances(grammar::module_defs(grammar_of(self.def)), state);
    }

    fn parse(&self, arena: &'a Bump, state: State<'a>) -> (result: ParseResult<
        'a,
        Defs<'a, D::Output>,
        DefsError<D::Error>,
    >) {
        let (progress, defs, state1) = match some_defs(arena, state, &self.def) {
            Ok(parsed) => parsed,
            Err((progress, e, _)) => return Err((progress, e, state)),
        };
        match parse_end_of_file(state1) {
            Ok((_, _, end)) => Ok((progress, defs, end)),
            Err((_, e, _)) => Err((progress, DefsError::Syntax(e), state)),
        }
    }
}

} // verus!
