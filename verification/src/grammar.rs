//! The grammar of modules: what each part of a module header is, and what a
//! module body is.

use crate::ast::{
    AppHeaderView, EffectsView, ImportsEntryView, InterfaceHeaderView, ModuleView, NamesView,
    PackagesView, PlatformHeaderView, ProvidesToView, SpacedView, SpacesView, ToView,
    TypedIdentView, TypedIdentsView,
};
use crate::blankspace::{space0_around_e, space0_before_e, space0_e};
use crate::collection::collection_e;
use crate::combine::{
    and, and_then, backtrackable, loc, map_err, mapped, maybe, one_of, skip_first, skip_second,
    specialize, succeed, zero_or_more, Grammar,
};
use crate::ident::{
    continues_ident, lemma_dot_width, lemma_peek_width, lowercase_ident, unqualified_ident,
    uppercase_ident,
};
use crate::lex::{ascii_string, end_of_file, keyword_e, peek, word1};
use crate::problem::{
    BadInputError, DefsError, EEffects, EExposes, EHeader, EImports, EPackages, EProvides,
    ERequires, ETypedIdent, HeaderError, KeywordProblem, ListProblem, SyntaxError, ToProblem,
};
use crate::region::{Col, Located, Row};
use crate::state::{MadeProgress, Outcome, StateView};
use crate::unicode::is_uppercase_letter;
use vstd::prelude::*;

verus! {

pub const DOT: u8 = 0x2e;

pub const COLON: u8 = 0x3a;

pub const COMMA: u8 = 0x2c;

pub const OPEN_SQUARE: u8 = 0x5b;

pub const CLOSE_SQUARE: u8 = 0x5d;

pub const OPEN_CURLY: u8 = 0x7b;

pub const CLOSE_CURLY: u8 = 0x7d;

/// The parts of a header stand behind the first column.
pub const MIN_INDENT: Col = 1;

/// The rest of a module name that starts with the characters `found`. Letters
/// of any script and ASCII digits go on with it, and so does a dot before an
/// uppercase letter. A dot before something else ends the name, and is not part
/// of it.
pub open spec fn module_name_rest(found: Seq<char>, s: StateView) -> Outcome<
    Seq<char>,
    SyntaxError,
>
    decreases s.bytes.len(),
{
    proof {
        lemma_peek_width(s.bytes);
        lemma_peek_width(s.bytes.skip(1));
        lemma_dot_width(s.bytes);
    }
    if s.bytes.len() == 0 {
        Ok((MadeProgress, found, s))
    } else {
        match peek(s.bytes) {
            Err(e) => Err((MadeProgress, e, s)),
            Ok((ch, width)) => if continues_ident(ch) {
                match s.advance(width) {
                    Ok(s1) => module_name_rest(found.push(ch), s1),
                    Err((progress, e, s1)) => Err((progress, e, s1)),
                }
            } else if ch == '.' {
                match peek(s.bytes.skip(1)) {
                    Err(e) => Err((MadeProgress, e, s)),
                    Ok((next, next_width)) => if is_uppercase_letter(next) {
                        match s.advance(width + next_width) {
                            Ok(s1) => module_name_rest(found.push('.').push(next), s1),
                            Err((progress, e, s1)) => Err((progress, e, s1)),
                        }
                    } else {
                        Ok((MadeProgress, found, s))
                    },
                }
            } else {
                Ok((MadeProgress, found, s))
            },
        }
    }
}

/// A module name, e.g. `Foo.Bar`.
pub open spec fn module_name() -> Grammar<Seq<char>, SyntaxError> {
    |s: StateView|
        match peek(s.bytes) {
            Err(e) => Err((MadeProgress, e, s)),
            Ok((first, width)) => if is_uppercase_letter(first) {
                match s.advance(width) {
                    Ok(s1) => module_name_rest(seq![first], s1),
                    Err((progress, e, s1)) => Err((progress, e, s1)),
                }
            } else {
                let (progress, e, s1) = s.unexpected(0);
                Err((progress, e, s1))
            },
        }
}

/// A keyword between blank space. Where the keyword is not there, parsing goes
/// back to before the blank space, as if nothing had been tried.
pub open spec fn spaces_around_keyword(min_indent: Col, keyword: Seq<char>) -> Grammar<
    (SpacesView, SpacesView),
    KeywordProblem,
> {
    and(
        skip_second(
            backtrackable(
                space0_e(
                    min_indent,
                    |bad: BadInputError, row: Row, col: Col| KeywordProblem::Space(bad, row, col),
                    |row: Row, col: Col| KeywordProblem::IndentBefore(row, col),
                ),
            ),
            keyword_e(keyword, |row: Row, col: Col| KeywordProblem::Expectation(row, col)),
        ),
        space0_e(
            min_indent,
            |bad: BadInputError, row: Row, col: Col| KeywordProblem::Space(bad, row, col),
            |row: Row, col: Col| KeywordProblem::IndentAfter(row, col),
        ),
    )
}

/// An exposed value.
pub open spec fn exposes_entry() -> Grammar<Located<Seq<char>>, SyntaxError> {
    loc(unqualified_ident())
}

/// An exposed module.
pub open spec fn exposes_module() -> Grammar<Located<Seq<char>>, SyntaxError> {
    loc(module_name())
}

pub open spec fn provides_keyword_problem(problem: KeywordProblem) -> EProvides {
    match problem {
        KeywordProblem::Expectation(row, col) => EProvides::Provides(row, col),
        KeywordProblem::Space(bad, row, col) => EProvides::Space(bad, row, col),
        KeywordProblem::IndentBefore(row, col) => EProvides::IndentProvides(row, col),
        KeywordProblem::IndentAfter(row, col) => EProvides::IndentListStart(row, col),
    }
}

pub open spec fn provides_list_problem(problem: ListProblem<SyntaxError>) -> EProvides {
    match problem {
        ListProblem::Start(row, col) => EProvides::ListStart(row, col),
        ListProblem::End(row, col) => EProvides::ListEnd(row, col),
        ListProblem::Space(bad, row, col) => EProvides::Space(bad, row, col),
        ListProblem::Indent(row, col) => EProvides::IndentListEnd(row, col),
        ListProblem::Entry(_, row, col) => EProvides::Identifier(row, col),
    }
}

/// e.g. `provides [ main, other ]`
#[verifier::opaque]
pub open spec fn provides_without_to() -> Grammar<
    ((SpacesView, SpacesView), NamesView),
    EProvides,
> {
    and(
        map_err(
            |problem: KeywordProblem| provides_keyword_problem(problem),
            spaces_around_keyword(MIN_INDENT, "provides"@),
        ),
        map_err(
            |problem: ListProblem<SyntaxError>| provides_list_problem(problem),
            collection_e(OPEN_SQUARE, exposes_entry(), COMMA, CLOSE_SQUARE, MIN_INDENT),
        ),
    )
}

/// What an app is provided to: the name of a package that the header lists, or
/// another package.
pub open spec fn provides_to_package<P, X>(package_or_path: Grammar<P, X>) -> Grammar<
    ToView<P>,
    ToProblem<X>,
> {
    one_of(
        mapped(
            map_err(|e: SyntaxError| ToProblem::Existing(e), lowercase_ident()),
            |name: Seq<char>| ToView::ExistingPackage(name),
        ),
        mapped(
            map_err(|e: X| ToProblem::New(e), package_or_path),
            |package: P| ToView::NewPackage(package),
        ),
    )
}

pub open spec fn to_keyword_problem(problem: KeywordProblem) -> EProvides {
    match problem {
        KeywordProblem::Expectation(row, col) => EProvides::To(row, col),
        KeywordProblem::Space(bad, row, col) => EProvides::Space(bad, row, col),
        KeywordProblem::IndentBefore(row, col) => EProvides::IndentTo(row, col),
        KeywordProblem::IndentAfter(row, col) => EProvides::IndentListStart(row, col),
    }
}

/// e.g. `provides [ main ] to base`
#[verifier::opaque]
pub open spec fn provides_to<P, X>(package_or_path: Grammar<P, X>) -> Grammar<
    ProvidesToView<P>,
    EProvides,
> {
    mapped(
        and(
            provides_without_to(),
            and(
                map_err(
                    |problem: KeywordProblem| to_keyword_problem(problem),
                    spaces_around_keyword(MIN_INDENT, "to"@),
                ),
                loc(
                    specialize(
                        |e: ToProblem<X>, row: Row, col: Col| EProvides::Package(row, col),
                        provides_to_package(package_or_path),
                    ),
                ),
            ),
        ),
        |parts: (
            ((SpacesView, SpacesView), NamesView),
            ((SpacesView, SpacesView), Located<ToView<P>>),
        )|
            ProvidesToView {
                entries: parts.0.1,
                to: parts.1.1,
                before_provides_keyword: parts.0.0.0,
                after_provides_keyword: parts.0.0.1,
                before_to_keyword: parts.1.0.0,
                after_to_keyword: parts.1.0.1,
            },
    )
}

/// A name with its type, e.g. `printLine : Str -> Effect {}`.
pub open spec fn typed_ident<T, X>(type_annotation: Grammar<Located<T>, X>) -> Grammar<
    TypedIdentView<T>,
    ETypedIdent<X>,
> {
    mapped(
        and(
            and(
                loc(
                    specialize(
                        |e: SyntaxError, row: Row, col: Col| ETypedIdent::Identifier(row, col),
                        lowercase_ident(),
                    ),
                ),
                space0_e(
                    0,
                    |bad: BadInputError, row: Row, col: Col| ETypedIdent::Space(bad, row, col),
                    |row: Row, col: Col| ETypedIdent::IndentHasType(row, col),
                ),
            ),
            skip_first(
                word1(COLON, |row: Row, col: Col| ETypedIdent::HasType(row, col)),
                space0_before_e(
                    specialize(
                        |e: X, row: Row, col: Col| ETypedIdent::Type(e, row, col),
                        type_annotation,
                    ),
                    0,
                    |bad: BadInputError, row: Row, col: Col| ETypedIdent::Space(bad, row, col),
                    |row: Row, col: Col| ETypedIdent::IndentType(row, col),
                ),
            ),
        ),
        |parts: ((Located<Seq<char>>, SpacesView), Located<SpacedView<T>>)|
            TypedIdentView {
                ident: parts.0.0,
                spaces_before_colon: parts.0.1,
                ann: parts.1,
            },
    )
}

pub open spec fn requires_keyword_problem<X>(problem: KeywordProblem) -> ERequires<X> {
    match problem {
        KeywordProblem::Expectation(row, col) => ERequires::Requires(row, col),
        KeywordProblem::Space(bad, row, col) => ERequires::Space(bad, row, col),
        KeywordProblem::IndentBefore(row, col) => ERequires::IndentRequires(row, col),
        KeywordProblem::IndentAfter(row, col) => ERequires::IndentListStart(row, col),
    }
}

pub open spec fn requires_list_problem<X>(problem: ListProblem<ETypedIdent<X>>) -> ERequires<X> {
    match problem {
        ListProblem::Start(row, col) => ERequires::ListStart(row, col),
        ListProblem::End(row, col) => ERequires::ListEnd(row, col),
        ListProblem::Space(bad, row, col) => ERequires::Space(bad, row, col),
        ListProblem::Indent(row, col) => ERequires::IndentListEnd(row, col),
        ListProblem::Entry(e, row, col) => ERequires::TypedIdent(e, row, col),
    }
}

/// e.g. `requires { main : Effect {} }`
#[verifier::opaque]
pub open spec fn requires_section<T, X>(type_annotation: Grammar<Located<T>, X>) -> Grammar<
    ((SpacesView, SpacesView), TypedIdentsView<T>),
    ERequires<X>,
> {
    and(
        map_err(
            |problem: KeywordProblem| requires_keyword_problem(problem),
            spaces_around_keyword(MIN_INDENT, "requires"@),
        ),
        map_err(
            |problem: ListProblem<ETypedIdent<X>>| requires_list_problem(problem),
            collection_e(
                OPEN_CURLY,
                loc(typed_ident(type_annotation)),
                COMMA,
                CLOSE_CURLY,
                MIN_INDENT,
            ),
        ),
    )
}

pub open spec fn exposes_keyword_problem(problem: KeywordProblem) -> EExposes {
    match problem {
        KeywordProblem::Expectation(row, col) => EExposes::Exposes(row, col),
        KeywordProblem::Space(bad, row, col) => EExposes::Space(bad, row, col),
        KeywordProblem::IndentBefore(row, col) => EExposes::IndentExposes(row, col),
        KeywordProblem::IndentAfter(row, col) => EExposes::IndentListStart(row, col),
    }
}

pub open spec fn exposes_list_problem(problem: ListProblem<SyntaxError>) -> EExposes {
    match problem {
        ListProblem::Start(row, col) => EExposes::ListStart(row, col),
        ListProblem::End(row, col) => EExposes::ListEnd(row, col),
        ListProblem::Space(bad, row, col) => EExposes::Space(bad, row, col),
        ListProblem::Indent(row, col) => EExposes::IndentListEnd(row, col),
        ListProblem::Entry(_, row, col) => EExposes::Identifier(row, col),
    }
}

/// e.g. `exposes [ map, Task ]`
#[verifier::opaque]
pub open spec fn exposes_values() -> Grammar<((SpacesView, SpacesView), NamesView), EExposes> {
    and(
        map_err(
            |problem: KeywordProblem| exposes_keyword_problem(problem),
            spaces_around_keyword(MIN_INDENT, "exposes"@),
        ),
        map_err(
            |problem: ListProblem<SyntaxError>| exposes_list_problem(problem),
            collection_e(OPEN_SQUARE, exposes_entry(), COMMA, CLOSE_SQUARE, MIN_INDENT),
        ),
    )
}

/// e.g. `exposes [ Task, Http.Client ]`
#[verifier::opaque]
pub open spec fn exposes_modules() -> Grammar<((SpacesView, SpacesView), NamesView), EExposes> {
    and(
        map_err(
            |problem: KeywordProblem| exposes_keyword_problem(problem),
            spaces_around_keyword(MIN_INDENT, "exposes"@),
        ),
        map_err(
            |problem: ListProblem<SyntaxError>| exposes_list_problem(problem),
            collection_e(OPEN_SQUARE, exposes_module(), COMMA, CLOSE_SQUARE, MIN_INDENT),
        ),
    )
}

pub open spec fn packages_keyword_problem(problem: KeywordProblem) -> EPackages {
    match problem {
        KeywordProblem::Expectation(row, col) => EPackages::Packages(row, col),
        KeywordProblem::Space(bad, row, col) => EPackages::Space(bad, row, col),
        KeywordProblem::IndentBefore(row, col) => EPackages::IndentPackages(row, col),
        KeywordProblem::IndentAfter(row, col) => EPackages::IndentListStart(row, col),
    }
}

pub open spec fn packages_list_problem<X>(problem: ListProblem<X>) -> EPackages {
    match problem {
        ListProblem::Start(row, col) => EPackages::ListStart(row, col),
        ListProblem::End(row, col) => EPackages::ListEnd(row, col),
        ListProblem::Space(bad, row, col) => EPackages::Space(bad, row, col),
        ListProblem::Indent(row, col) => EPackages::IndentListEnd(row, col),
        ListProblem::Entry(_, row, col) => EPackages::PackageEntry(row, col),
    }
}

/// e.g. `packages { base: "./platform" }`
#[verifier::opaque]
pub open spec fn packages<P, X>(package_entry: Grammar<P, X>) -> Grammar<
    PackagesView<P>,
    EPackages,
> {
    mapped(
        and(
            map_err(
                |problem: KeywordProblem| packages_keyword_problem(problem),
                spaces_around_keyword(MIN_INDENT, "packages"@),
            ),
            map_err(
                |problem: ListProblem<X>| packages_list_problem(problem),
                collection_e(OPEN_CURLY, loc(package_entry), COMMA, CLOSE_CURLY, MIN_INDENT),
            ),
        ),
        |parts: ((SpacesView, SpacesView), Seq<Located<SpacedView<P>>>)|
            PackagesView {
                entries: parts.1,
                before_packages_keyword: parts.0.0,
                after_packages_keyword: parts.0.1,
            },
    )
}

/// The package that an import comes from, e.g. `base`.
pub open spec fn shortname() -> Grammar<Seq<char>, EImports> {
    specialize(
        |e: SyntaxError, row: Row, col: Col| EImports::Shorthand(row, col),
        lowercase_ident(),
    )
}

/// A module name, with the problem that the surroundings call for.
pub open spec fn module_name_help<E>(to_expectation: spec_fn(Row, Col) -> E) -> Grammar<
    Seq<char>,
    E,
> {
    specialize(|e: SyntaxError, row: Row, col: Col| to_expectation(row, col), module_name())
}

pub open spec fn import_set_problem(problem: ListProblem<SyntaxError>) -> EImports {
    match problem {
        ListProblem::Start(row, col) => EImports::SetStart(row, col),
        ListProblem::End(row, col) => EImports::SetEnd(row, col),
        ListProblem::Space(bad, row, col) => EImports::Space(bad, row, col),
        ListProblem::Indent(row, col) => EImports::IndentSetEnd(row, col),
        ListProblem::Entry(_, row, col) => EImports::Identifier(row, col),
    }
}

/// What an import is, given the package that it names, its module and the
/// values that it exposes.
pub open spec fn import_of(
    opt_shortname: Option<Seq<char>>,
    module_name: Seq<char>,
    opt_values: Option<NamesView>,
) -> ImportsEntryView {
    let exposed_values = match opt_values {
        Some(values) => values,
        None => Seq::empty(),
    };
    match opt_shortname {
        Some(shortname) => ImportsEntryView::Package(shortname, module_name, exposed_values),
        None => ImportsEntryView::Module(module_name, exposed_values),
    }
}

/// The package in an import, e.g. `base.`, where there is one.
pub open spec fn opt_shortname() -> Grammar<Option<Seq<char>>, EImports> {
    maybe(
        skip_second(
            shortname(),
            word1(DOT, |row: Row, col: Col| EImports::ShorthandDot(row, col)),
        ),
    )
}

/// The values that an import exposes, e.g. `.{ Task, after }`, where there are
/// any.
pub open spec fn opt_exposed_values() -> Grammar<Option<NamesView>, EImports> {
    maybe(
        skip_first(
            word1(DOT, |row: Row, col: Col| EImports::ExposingDot(row, col)),
            map_err(
                |problem: ListProblem<SyntaxError>| import_set_problem(problem),
                collection_e(OPEN_CURLY, exposes_entry(), COMMA, CLOSE_CURLY, MIN_INDENT),
            ),
        ),
    )
}

/// An import, e.g. `base.Task.{ Task, after }`.
pub open spec fn imports_entry() -> Grammar<ImportsEntryView, EImports> {
    mapped(
        and(
            and(
                opt_shortname(),
                module_name_help(|row: Row, col: Col| EImports::ModuleName(row, col)),
            ),
            opt_exposed_values(),
        ),
        |parts: ((Option<Seq<char>>, Seq<char>), Option<NamesView>)|
            import_of(parts.0.0, parts.0.1, parts.1),
    )
}

pub open spec fn imports_keyword_problem(problem: KeywordProblem) -> EImports {
    match problem {
        KeywordProblem::Expectation(row, col) => EImports::Imports(row, col),
        KeywordProblem::Space(bad, row, col) => EImports::Space(bad, row, col),
        KeywordProblem::IndentBefore(row, col) => EImports::IndentImports(row, col),
        KeywordProblem::IndentAfter(row, col) => EImports::IndentListStart(row, col),
    }
}

pub open spec fn imports_list_problem(problem: ListProblem<EImports>) -> EImports {
    match problem {
        ListProblem::Start(row, col) => EImports::ListStart(row, col),
        ListProblem::End(row, col) => EImports::ListEnd(row, col),
        ListProblem::Space(bad, row, col) => EImports::Space(bad, row, col),
        ListProblem::Indent(row, col) => EImports::IndentListEnd(row, col),
        ListProblem::Entry(e, _, _) => e,
    }
}

/// The blank space around the keyword `imports`, and the imports.
pub type ImportsView = ((SpacesView, SpacesView), Seq<Located<SpacedView<ImportsEntryView>>>);

/// e.g. `imports [ base.Task, Json.Decode.{ field } ]`
#[verifier::opaque]
pub open spec fn imports() -> Grammar<ImportsView, EImports> {
    and(
        map_err(
            |problem: KeywordProblem| imports_keyword_problem(problem),
            spaces_around_keyword(MIN_INDENT, "imports"@),
        ),
        map_err(
            |problem: ListProblem<EImports>| imports_list_problem(problem),
            collection_e(OPEN_SQUARE, loc(imports_entry()), COMMA, CLOSE_SQUARE, MIN_INDENT),
        ),
    )
}

pub open spec fn effects_keyword_problem<X>(problem: KeywordProblem) -> EEffects<X> {
    match problem {
        KeywordProblem::Expectation(row, col) => EEffects::Effects(row, col),
        KeywordProblem::Space(bad, row, col) => EEffects::Space(bad, row, col),
        KeywordProblem::IndentBefore(row, col) => EEffects::IndentEffects(row, col),
        KeywordProblem::IndentAfter(row, col) => EEffects::IndentListStart(row, col),
    }
}

pub open spec fn effects_list_problem<X>(problem: ListProblem<ETypedIdent<X>>) -> EEffects<X> {
    match problem {
        ListProblem::Start(row, col) => EEffects::ListStart(row, col),
        ListProblem::End(row, col) => EEffects::ListEnd(row, col),
        ListProblem::Space(bad, row, col) => EEffects::Space(bad, row, col),
        ListProblem::Indent(row, col) => EEffects::IndentListEnd(row, col),
        ListProblem::Entry(e, row, col) => EEffects::TypedIdent(e, row, col),
    }
}

/// The name of an effect type, e.g. `fx.`
pub open spec fn effect_shortname<X>() -> Grammar<Seq<char>, EEffects<X>> {
    skip_second(
        specialize(
            |e: SyntaxError, row: Row, col: Col| EEffects::Shorthand(row, col),
            lowercase_ident(),
        ),
        word1(DOT, |row: Row, col: Col| EEffects::ShorthandDot(row, col)),
    )
}

/// An effect type and the blank space behind it, e.g. `Effect `
pub open spec fn effect_type_name<X>() -> Grammar<(Seq<char>, SpacesView), EEffects<X>> {
    and(
        specialize(
            |e: SyntaxError, row: Row, col: Col| EEffects::TypeName(row, col),
            uppercase_ident(),
        ),
        space0_e(
            MIN_INDENT,
            |bad: BadInputError, row: Row, col: Col| EEffects::Space(bad, row, col),
            |row: Row, col: Col| EEffects::IndentListStart(row, col),
        ),
    )
}

/// e.g. `effects fx.Effect { putLine : Str -> Effect {} }`
#[verifier::opaque]
pub open spec fn effects<T, X>(type_annotation: Grammar<Located<T>, X>) -> Grammar<
    EffectsView<T>,
    EEffects<X>,
> {
    and_then(
        map_err(
            |problem: KeywordProblem| effects_keyword_problem(problem),
            spaces_around_keyword(MIN_INDENT, "effects"@),
        ),
        |around: (SpacesView, SpacesView)|
            and_then(
                effect_shortname(),
                |shortname: Seq<char>|
                    and_then(
                        effect_type_name(),
                        |named: (Seq<char>, SpacesView)|
                            and_then(
                                map_err(
                                    |problem: ListProblem<ETypedIdent<X>>|
                                        effects_list_problem(problem),
                                    collection_e(
                                        OPEN_CURLY,
                                        loc(typed_ident(type_annotation)),
                                        COMMA,
                                        CLOSE_CURLY,
                                        MIN_INDENT,
                                    ),
                                ),
                                |entries: TypedIdentsView<T>|
                                    succeed(
                                        EffectsView {
                                            spaces_before_effects_keyword: around.0,
                                            spaces_after_effects_keyword: around.1,
                                            spaces_after_type_name: named.1,
                                            effect_shortname: shortname,
                                            effect_type_name: named.0,
                                            entries,
                                        },
                                    ),
                            ),
                    ),
            ),
    )
}

/// The header of an interface, behind its first word.
#[verifier::opaque]
pub open spec fn interface_header_help<S, T>() -> Grammar<InterfaceHeaderView, EHeader<S, T>> {
    and_then(
        space0_e(
            MIN_INDENT,
            |bad: BadInputError, row: Row, col: Col| EHeader::Space(bad, row, col),
            |row: Row, col: Col| EHeader::IndentStart(row, col),
        ),
        |after_interface_keyword: SpacesView|
            and_then(
                loc(module_name_help(|row: Row, col: Col| EHeader::ModuleName(row, col))),
                |name: Located<Seq<char>>|
                    and_then(
                        specialize(
                            |e: EExposes, row: Row, col: Col| EHeader::Exposes(e, row, col),
                            exposes_values(),
                        ),
                        |exposes: ((SpacesView, SpacesView), NamesView)|
                            and_then(
                                specialize(
                                    |e: EImports, row: Row, col: Col| EHeader::Imports(e, row, col),
                                    imports(),
                                ),
                                |imports: ImportsView|
                                    succeed(
                                        InterfaceHeaderView {
                                            name,
                                            exposes: exposes.1,
                                            imports: imports.1,
                                            after_interface_keyword,
                                            before_exposes: exposes.0.0,
                                            after_exposes: exposes.0.1,
                                            before_imports: imports.0.0,
                                            after_imports: imports.0.1,
                                        },
                                    ),
                            ),
                    ),
            ),
    )
}

/// The header of an app, given its parts. A part that is left out is empty.
pub open spec fn app_header_of<S, E, P>(
    after_app_keyword: SpacesView,
    name: Located<S>,
    opt_pkgs: Option<PackagesView<E>>,
    opt_imports: Option<ImportsView>,
    provides: ProvidesToView<P>,
) -> AppHeaderView<S, E, P> {
    let pkgs = match opt_pkgs {
        Some(pkgs) => pkgs,
        None => PackagesView {
            entries: Seq::empty(),
            before_packages_keyword: Seq::empty(),
            after_packages_keyword: Seq::empty(),
        },
    };
    let imports = match opt_imports {
        Some(imports) => imports,
        None => ((Seq::empty(), Seq::empty()), Seq::empty()),
    };
    AppHeaderView {
        name,
        packages: pkgs.entries,
        imports: imports.1,
        provides: provides.entries,
        to: provides.to,
        after_app_keyword,
        before_packages: pkgs.before_packages_keyword,
        after_packages: pkgs.after_packages_keyword,
        before_imports: imports.0.0,
        after_imports: imports.0.1,
        before_provides: provides.before_provides_keyword,
        after_provides: provides.after_provides_keyword,
        before_to: provides.before_to_keyword,
        after_to: provides.after_to_keyword,
    }
}

/// The header of an app, behind its first word.
#[verifier::opaque]
pub open spec fn app_header_help<S, XS, E, XE, P, XP, T>(
    string_literal: Grammar<S, XS>,
    package_entry: Grammar<E, XE>,
    package_or_path: Grammar<P, XP>,
) -> Grammar<AppHeaderView<S, E, P>, EHeader<XS, T>> {
    and_then(
        space0_e(
            MIN_INDENT,
            |bad: BadInputError, row: Row, col: Col| EHeader::Space(bad, row, col),
            |row: Row, col: Col| EHeader::IndentStart(row, col),
        ),
        |after_app_keyword: SpacesView|
            and_then(
                loc(
                    specialize(
                        |e: XS, row: Row, col: Col| EHeader::AppName(e, row, col),
                        string_literal,
                    ),
                ),
                |name: Located<S>|
                    and_then(
                        maybe(
                            specialize(
                                |e: EPackages, row: Row, col: Col| EHeader::Packages(e, row, col),
                                packages(package_entry),
                            ),
                        ),
                        |opt_pkgs: Option<PackagesView<E>>|
                            and_then(
                                maybe(
                                    specialize(
                                        |e: EImports, row: Row, col: Col|
                                            EHeader::Imports(e, row, col),
                                        imports(),
                                    ),
                                ),
                                |opt_imports: Option<ImportsView>|
                                    and_then(
                                        specialize(
                                            |e: EProvides, row: Row, col: Col|
                                                EHeader::Provides(e, row, col),
                                            provides_to(package_or_path),
                                        ),
                                        |provides: ProvidesToView<P>|
                                            succeed(
                                                app_header_of(
                                                    after_app_keyword,
                                                    name,
                                                    opt_pkgs,
                                                    opt_imports,
                                                    provides,
                                                ),
                                            ),
                                    ),
                            ),
                    ),
            ),
    )
}

/// The header of a platform, behind its first word.
#[verifier::opaque]
pub open spec fn platform_header_help<N, XN, E, XE, T, XT, S>(
    package_name: Grammar<N, XN>,
    package_entry: Grammar<E, XE>,
    type_annotation: Grammar<Located<T>, XT>,
) -> Grammar<PlatformHeaderView<N, E, T>, EHeader<S, XT>> {
    and_then(
        space0_e(
            MIN_INDENT,
            |bad: BadInputError, row: Row, col: Col| EHeader::Space(bad, row, col),
            |row: Row, col: Col| EHeader::IndentStart(row, col),
        ),
        |after_platform_keyword: SpacesView|
            and_then(
                loc(
                    specialize(
                        |e: XN, row: Row, col: Col| EHeader::PlatformName(row, col),
                        package_name,
                    ),
                ),
                |name: Located<N>|
                    and_then(
                        specialize(
                            |e: ERequires<XT>, row: Row, col: Col| EHeader::Requires(e, row, col),
                            requires_section(type_annotation),
                        ),
                        |required: ((SpacesView, SpacesView), TypedIdentsView<T>)|
                            platform_header_rest(
                                after_platform_keyword,
                                name,
                                required,
                                package_entry,
                                type_annotation,
                            ),
                    ),
            ),
    )
}

/// The header of a platform, behind its `requires` list.
pub open spec fn platform_header_rest<N, E, XE, T, XT, S>(
    after_platform_keyword: SpacesView,
    name: Located<N>,
    required: ((SpacesView, SpacesView), TypedIdentsView<T>),
    package_entry: Grammar<E, XE>,
    type_annotation: Grammar<Located<T>, XT>,
) -> Grammar<PlatformHeaderView<N, E, T>, EHeader<S, XT>> {
    and_then(
        specialize(
            |e: EExposes, row: Row, col: Col| EHeader::Exposes(e, row, col),
            exposes_modules(),
        ),
        |exposes: ((SpacesView, SpacesView), NamesView)|
            and_then(
                specialize(
                    |e: EPackages, row: Row, col: Col| EHeader::Packages(e, row, col),
                    packages(package_entry),
                ),
                |packages: PackagesView<E>|
                    and_then(
                        specialize(
                            |e: EImports, row: Row, col: Col| EHeader::Imports(e, row, col),
                            imports(),
                        ),
                        |imports: ImportsView|
                            and_then(
                                specialize(
                                    |e: EProvides, row: Row, col: Col|
                                        EHeader::Provides(e, row, col),
                                    provides_without_to(),
                                ),
                                |provides: ((SpacesView, SpacesView), NamesView)|
                                    and_then(
                                        specialize(
                                            |e: EEffects<XT>, row: Row, col: Col|
                                                EHeader::Effects(e, row, col),
                                            effects(type_annotation),
                                        ),
                                        |effects: EffectsView<T>|
                                            succeed(
                                                PlatformHeaderView {
                                                    name,
                                                    requires: required.1,
                                                    exposes: exposes.1,
                                                    packages: packages.entries,
                                                    imports: imports.1,
                                                    provides: provides.1,
                                                    effects,
                                                    after_platform_keyword,
                                                    before_requires: required.0.0,
                                                    after_requires: required.0.1,
                                                    before_exposes: exposes.0.0,
                                                    after_exposes: exposes.0.1,
                                                    before_packages:
                                                        packages.before_packages_keyword,
                                                    after_packages: packages.after_packages_keyword,
                                                    before_imports: imports.0.0,
                                                    after_imports: imports.0.1,
                                                    before_provides: provides.0.0,
                                                    after_provides: provides.0.1,
                                                },
                                            ),
                                    ),
                            ),
                    ),
            ),
    )
}

/// The header of an interface, as part of a module.
pub open spec fn interface_header<S, T>() -> Grammar<
    InterfaceHeaderView,
    HeaderError<EHeader<S, T>>,
> {
    map_err(|e: EHeader<S, T>| HeaderError::Header(e), interface_header_help())
}

/// The header of an app, as part of a module.
pub open spec fn app_header<S, XS, E, XE, P, XP, T>(
    string_literal: Grammar<S, XS>,
    package_entry: Grammar<E, XE>,
    package_or_path: Grammar<P, XP>,
) -> Grammar<AppHeaderView<S, E, P>, HeaderError<EHeader<XS, T>>> {
    map_err(
        |e: EHeader<XS, T>| HeaderError::Header(e),
        app_header_help(string_literal, package_entry, package_or_path),
    )
}

/// The header of a platform, as part of a module.
pub open spec fn platform_header<N, XN, E, XE, T, XT, S>(
    package_name: Grammar<N, XN>,
    package_entry: Grammar<E, XE>,
    type_annotation: Grammar<Located<T>, XT>,
) -> Grammar<PlatformHeaderView<N, E, T>, HeaderError<EHeader<S, XT>>> {
    map_err(
        |e: EHeader<S, XT>| HeaderError::Header(e),
        platform_header_help(package_name, package_entry, type_annotation),
    )
}

/// A header that starts with `word` and goes on with `rest`.
pub open spec fn header_after<H, V, X>(
    word: Seq<char>,
    rest: Grammar<H, HeaderError<X>>,
    module: spec_fn(H) -> V,
) -> Grammar<V, HeaderError<X>> {
    mapped(
        skip_first(map_err(|e: SyntaxError| HeaderError::Syntax(e), ascii_string(word)), rest),
        module,
    )
}

/// The header of a module. Its first word says which kind of module it is.
pub open spec fn header<S, XS, N, XN, E, XE, P, XP, T, XT>(
    string_literal: Grammar<S, XS>,
    package_name: Grammar<N, XN>,
    package_entry: Grammar<E, XE>,
    package_or_path: Grammar<P, XP>,
    type_annotation: Grammar<Located<T>, XT>,
) -> Grammar<ModuleView<S, N, E, P, T>, HeaderError<EHeader<XS, XT>>> {
    one_of(
        header_after(
            "app"@,
            app_header(string_literal, package_entry, package_or_path),
            |header: AppHeaderView<S, E, P>| ModuleView::App { header },
        ),
        one_of(
            header_after(
                "platform"@,
                platform_header(package_name, package_entry, type_annotation),
                |header: PlatformHeaderView<N, E, T>| ModuleView::Platform { header },
            ),
            header_after(
                "interface"@,
                interface_header(),
                |header: InterfaceHeaderView| ModuleView::Interface { header },
            ),
        ),
    )
}

/// A definition in a module body, with the blank space around it.
pub open spec fn module_def<V, X>(def: Grammar<V, X>) -> Grammar<
    Located<SpacedView<V>>,
    DefsError<X>,
> {
    space0_around_e(
        loc(map_err(|e: X| DefsError::Def(e), def)),
        0,
        |bad: BadInputError, row: Row, col: Col|
            DefsError::Syntax(SyntaxError::Space(bad, row, col)),
        |row: Row, col: Col| DefsError::Syntax(SyntaxError::OutdentedTooFar(row, col)),
    )
}

/// A module body: definitions, up to the end of the input.
pub open spec fn module_defs<V, X>(def: Grammar<V, X>) -> Grammar<
    Seq<Located<SpacedView<V>>>,
    DefsError<X>,
> {
    skip_second(
        zero_or_more(module_def(def)),
        map_err(|e: SyntaxError| DefsError::Syntax(e), end_of_file()),
    )
}

} // verus!
