//! How the productions are made of their parts: which part stands where, what it
//! gives to the whole, and which problem it is where a part fails.

use crate::ast::{ImportsEntryView, ModuleView, SpacedView, SpacesView, ToView, TypedIdentsView};
use crate::blankspace::space0;
use crate::collection::{collection_e, list_entry};
use crate::combine::{loc, maybe, region_between, Grammar};
use crate::grammar::{
    app_header_help, effects, exposes_entry, exposes_module, exposes_modules, exposes_values,
    header, imports, imports_entry, interface_header_help, module_def, module_name,
    opt_exposed_values, opt_shortname, packages, platform_header_help, platform_header_rest,
    provides_to, provides_to_package, provides_without_to, requires_section, spaces_around_keyword,
    typed_ident,
};
use crate::ident::{lowercase_ident, uppercase_ident};
use crate::laws::{
    law_keyword_backtracks, law_provides_whole, lemma_words_differ, whole_or_nothing, word_next,
};
use crate::problem::{
    DefsError, EEffects, EExposes, EHeader, EImports, EPackages, EProvides, ERequires, ETypedIdent,
    HeaderError, KeywordProblem, ListProblem, SpaceProblem, SyntaxError, ToProblem,
};
use crate::region::{Col, Located};
use crate::state::{MadeProgress, NoProgress, Outcome, Progress, StateView};
use vstd::prelude::*;
use vstd::utf8::{encode_utf8, is_ascii_chars_encode_utf8};

verus! {

/// Whether parsing gives just this value, and ends just there.
pub open spec fn gives<V, E>(
    result: Outcome<V, E>,
    progress: Progress,
    value: V,
    end: StateView,
) -> bool {
    result matches Ok((p, v, s)) && p == progress && v == value && s == end
}

/// Whether parsing fails with just this problem, and stops just there.
pub open spec fn fails<V, E>(
    result: Outcome<V, E>,
    progress: Progress,
    problem: E,
    end: StateView,
) -> bool {
    result matches Err((p, e, s)) && p == progress && e == problem && s == end
}

/// Whether a value stands between two places.
pub open spec fn stands<A>(
    located: Located<A>,
    value: A,
    start: StateView,
    end: StateView,
) -> bool {
    &&& located.value == value
    &&& located.region.start_line == start.line
    &&& located.region.start_col == start.column
    &&& located.region.end_line == end.line
    &&& located.region.end_col == end.column
}

/// The header of an interface is made of its parts, each behind the one before it:
/// the blank space, the module name, the `exposes` list and the `imports` list.
/// Where a part fails, that is the failure.
pub proof fn law_interface_parts<S, T>(s: StateView)
    ensures
        ({
            let result = interface_header_help::<S, T>()(s);
            match space0(1)(s) {
                Err((p, SpaceProblem::Space(bad, row, col), at)) => fails(
                    result,
                    p,
                    EHeader::Space(bad, row, col),
                    at,
                ),
                Err((p, SpaceProblem::Indent(row, col), at)) => fails(
                    result,
                    p,
                    EHeader::IndentStart(row, col),
                    at,
                ),
                Ok((_, after, s1)) => match module_name()(s1) {
                    Err((p, _, at)) => fails(
                        result,
                        p,
                        EHeader::ModuleName(at.line, at.column),
                        at,
                    ),
                    Ok((_, name, s2)) => match exposes_values()(s2) {
                        Err((p, e, at)) => fails(
                            result,
                            p,
                            EHeader::Exposes(e, at.line, at.column),
                            at,
                        ),
                        Ok((_, exposed, s3)) => match imports()(s3) {
                            Err((p, e, at)) => fails(
                                result,
                                p,
                                EHeader::Imports(e, at.line, at.column),
                                at,
                            ),
                            Ok((_, imported, s4)) => {
                                &&& result matches Ok((MadeProgress, header, end))
                                &&& stands(header.name, name, s1, s2)
                                &&& header.exposes == exposed.1
                                &&& header.imports == imported.1
                                &&& header.after_interface_keyword == after
                                &&& header.before_exposes == exposed.0.0
                                &&& header.after_exposes == exposed.0.1
                                &&& header.before_imports == imported.0.0
                                &&& header.after_imports == imported.0.1
                                &&& end == s4
                            },
                        },
                    },
                },
            }
        }),
{
    reveal(interface_header_help);
}

/// The header of an app is made of its parts, each behind the one before it: the
/// blank space, the name, the `packages` list and the `imports` list where they are
/// there, and what is provided. Where a part fails, that is the failure.
pub proof fn law_app_parts<S, XS, E, XE, P, XP, T>(
    string_literal: Grammar<S, XS>,
    package_entry: Grammar<E, XE>,
    package_or_path: Grammar<P, XP>,
    s: StateView,
)
    ensures
        ({
            let result = app_header_help::<S, XS, E, XE, P, XP, T>(
                string_literal,
                package_entry,
                package_or_path,
            )(s);
            match space0(1)(s) {
                Err((p, SpaceProblem::Space(bad, row, col), at)) => fails(
                    result,
                    p,
                    EHeader::Space(bad, row, col),
                    at,
                ),
                Err((p, SpaceProblem::Indent(row, col), at)) => fails(
                    result,
                    p,
                    EHeader::IndentStart(row, col),
                    at,
                ),
                Ok((_, after, s1)) => match string_literal(s1) {
                    Err((p, e, at)) => fails(
                        result,
                        p,
                        EHeader::AppName(e, at.line, at.column),
                        at,
                    ),
                    Ok((_, name, s2)) => match maybe(packages(package_entry))(s2) {
                        Err((p, e, at)) => fails(
                            result,
                            p,
                            EHeader::Packages(e, at.line, at.column),
                            at,
                        ),
                        Ok((_, listed, s3)) => match maybe(imports())(s3) {
                            Err((p, e, at)) => fails(
                                result,
                                p,
                                EHeader::Imports(e, at.line, at.column),
                                at,
                            ),
                            Ok((_, imported, s4)) => match provides_to(package_or_path)(s4) {
                                Err((p, e, at)) => fails(
                                    result,
                                    p,
                                    EHeader::Provides(e, at.line, at.column),
                                    at,
                                ),
                                Ok((_, provided, s5)) => {
                                    &&& result matches Ok((MadeProgress, header, end))
                                    &&& stands(header.name, name, s1, s2)
                                    &&& listed matches Some(listed)
                                        ==> header.packages == listed.entries
                                        && header.before_packages == listed.before_packages_keyword
                                        && header.after_packages == listed.after_packages_keyword
                                    &&& listed is None ==> header.packages.len() == 0
                                        && header.before_packages.len() == 0
                                        && header.after_packages.len() == 0
                                    &&& imported matches Some(imported)
                                        ==> header.imports == imported.1
                                        && header.before_imports == imported.0.0
                                        && header.after_imports == imported.0.1
                                    &&& imported is None ==> header.imports.len() == 0
                                        && header.before_imports.len() == 0
                                        && header.after_imports.len() == 0
                                    &&& header.provides == provided.entries
                                    &&& header.to == provided.to
                                    &&& header.after_app_keyword == after
                                    &&& header.before_provides == provided.before_provides_keyword
                                    &&& header.after_provides == provided.after_provides_keyword
                                    &&& header.before_to == provided.before_to_keyword
                                    &&& header.after_to == provided.after_to_keyword
                                    &&& end == s5
                                },
                            },
                        },
                    },
                },
            }
        }),
{
    reveal(app_header_help);
}

/// The header of a platform behind its `requires` list.
proof fn lemma_platform_rest_parts<N, E, XE, T, XT, S>(
    after: SpacesView,
    name: Located<N>,
    required: ((SpacesView, SpacesView), TypedIdentsView<T>),
    package_entry: Grammar<E, XE>,
    type_annotation: Grammar<Located<T>, XT>,
    s3: StateView,
)
    ensures
        ({
            let result = platform_header_rest::<N, E, XE, T, XT, S>(
                after,
                name,
                required,
                package_entry,
                type_annotation,
            )(s3);
            match exposes_modules()(s3) {
                Err((p, e, at)) => fails(result, p, EHeader::Exposes(e, at.line, at.column), at),
                Ok((_, exposed, s4)) => match packages(package_entry)(s4) {
                    Err((p, e, at)) => fails(
                        result,
                        p,
                        EHeader::Packages(e, at.line, at.column),
                        at,
                    ),
                    Ok((_, listed, s5)) => match imports()(s5) {
                        Err((p, e, at)) => fails(
                            result,
                            p,
                            EHeader::Imports(e, at.line, at.column),
                            at,
                        ),
                        Ok((_, imported, s6)) => match provides_without_to()(s6) {
                            Err((p, e, at)) => fails(
                                result,
                                p,
                                EHeader::Provides(e, at.line, at.column),
                                at,
                            ),
                            Ok((_, provided, s7)) => match effects(type_annotation)(s7) {
                                Err((p, e, at)) => fails(
                                    result,
                                    p,
                                    EHeader::Effects(e, at.line, at.column),
                                    at,
                                ),
                                Ok((_, offered, s8)) => {
                                    &&& result matches Ok((MadeProgress, header, end))
                                    &&& header.name == name
                                    &&& header.requires == required.1
                                    &&& header.after_platform_keyword == after
                                    &&& header.before_requires == required.0.0
                                    &&& header.after_requires == required.0.1
                                    &&& header.exposes == exposed.1
                                    &&& header.packages == listed.entries
                                    &&& header.imports == imported.1
                                    &&& header.provides == provided.1
                                    &&& header.effects == offered
                                    &&& header.before_exposes == exposed.0.0
                                    &&& header.after_exposes == exposed.0.1
                                    &&& header.before_packages == listed.before_packages_keyword
                                    &&& header.after_packages == listed.after_packages_keyword
                                    &&& header.before_imports == imported.0.0
                                    &&& header.after_imports == imported.0.1
                                    &&& header.before_provides == provided.0.0
                                    &&& header.after_provides == provided.0.1
                                    &&& end == s8
                                },
                            },
                        },
                    },
                },
            }
        }),
{
}

/// The header of a platform is made of its parts, each behind the one before it: the
/// blank space, the name, and what the platform requires, exposes, lists as packages,
/// imports, provides and offers as effects. Where a part fails, that is the failure.
pub proof fn law_platform_parts<N, XN, E, XE, T, XT, S>(
    package_name: Grammar<N, XN>,
    package_entry: Grammar<E, XE>,
    type_annotation: Grammar<Located<T>, XT>,
    s: StateView,
)
    ensures
        ({
            let result = platform_header_help::<N, XN, E, XE, T, XT, S>(
                package_name,
                package_entry,
                type_annotation,
            )(s);
            match space0(1)(s) {
                Err((p, SpaceProblem::Space(bad, row, col), at)) => fails(
                    result,
                    p,
                    EHeader::Space(bad, row, col),
                    at,
                ),
                Err((p, SpaceProblem::Indent(row, col), at)) => fails(
                    result,
                    p,
                    EHeader::IndentStart(row, col),
                    at,
                ),
                Ok((_, after, s1)) => match package_name(s1) {
                    Err((p, _, at)) => fails(
                        result,
                        p,
                        EHeader::PlatformName(at.line, at.column),
                        at,
                    ),
                    Ok((_, name, s2)) => match requires_section(type_annotation)(s2) {
                        Err((p, e, at)) => fails(
                            result,
                            p,
                            EHeader::Requires(e, at.line, at.column),
                            at,
                        ),
                        Ok((_, required, s3)) => match exposes_modules()(s3) {
                            Err((p, e, at)) => fails(
                                result,
                                p,
                                EHeader::Exposes(e, at.line, at.column),
                                at,
                            ),
                            Ok((_, exposed, s4)) => match packages(package_entry)(s4) {
                                Err((p, e, at)) => fails(
                                    result,
                                    p,
                                    EHeader::Packages(e, at.line, at.column),
                                    at,
                                ),
                                Ok((_, listed, s5)) => match imports()(s5) {
                                    Err((p, e, at)) => fails(
                                        result,
                                        p,
                                        EHeader::Imports(e, at.line, at.column),
                                        at,
                                    ),
                                    Ok((_, imported, s6)) => match provides_without_to()(s6) {
                                        Err((p, e, at)) => fails(
                                            result,
                                            p,
                                            EHeader::Provides(e, at.line, at.column),
                                            at,
                                        ),
                                        Ok((_, provided, s7)) => match effects(
                                            type_annotation,
                                        )(s7) {
                                            Err((p, e, at)) => fails(
                                                result,
                                                p,
                                                EHeader::Effects(e, at.line, at.column),
                                                at,
                                            ),
                                            Ok((_, offered, s8)) => {
                                                &&& result matches Ok((MadeProgress, header, end))
                                                &&& stands(header.name, name, s1, s2)
                                                &&& header.requires == required.1
                                                &&& header.after_platform_keyword == after
                                                &&& header.before_requires == required.0.0
                                                &&& header.after_requires == required.0.1
                                                &&& header.exposes == exposed.1
                                                &&& header.packages == listed.entries
                                                &&& header.imports == imported.1
                                                &&& header.provides == provided.1
                                                &&& header.effects == offered
                                                &&& header.before_exposes == exposed.0.0
                                                &&& header.after_exposes == exposed.0.1
                                                &&& header.before_packages
                                                    == listed.before_packages_keyword
                                                &&& header.after_packages
                                                    == listed.after_packages_keyword
                                                &&& header.before_imports == imported.0.0
                                                &&& header.after_imports == imported.0.1
                                                &&& header.before_provides == provided.0.0
                                                &&& header.after_provides == provided.0.1
                                                &&& end == s8
                                            },
                                        },
                                    },
                                },
                            },
                        },
                    },
                },
            }
        }),
{
    reveal(platform_header_help);
    if let Ok((_, after, s1)) = space0(1)(s) {
        if let Ok((_, name, s2)) = package_name(s1) {
            if let Ok((_, required, s3)) = requires_section(type_annotation)(s2) {
                lemma_platform_rest_parts::<N, E, XE, T, XT, S>(
                    after,
                    Located { region: region_between(s1, s2), value: name },
                    required,
                    package_entry,
                    type_annotation,
                    s3,
                );
            }
        }
    }
}

/// The `exposes` list of an interface is the keyword between blank space, and the entries in
/// their brackets. Where one of them fails, that is the failure.
pub proof fn law_exposes_values_parts(s: StateView)
    ensures
        ({
            let result = exposes_values()(s);
            match spaces_around_keyword(1, "exposes"@)(s) {
                Err((p, KeywordProblem::Expectation(row, col), at)) => fails(
                    result,
                    p,
                    EExposes::Exposes(row, col),
                    at,
                ),
                Err((p, KeywordProblem::Space(bad, row, col), at)) => fails(
                    result,
                    p,
                    EExposes::Space(bad, row, col),
                    at,
                ),
                Err((p, KeywordProblem::IndentBefore(row, col), at)) => fails(
                    result,
                    p,
                    EExposes::IndentExposes(row, col),
                    at,
                ),
                Err((p, KeywordProblem::IndentAfter(row, col), at)) => fails(
                    result,
                    p,
                    EExposes::IndentListStart(row, col),
                    at,
                ),
                Ok((_, around, s1)) => match collection_e(
                    0x5b,
                    exposes_entry(),
                    0x2c,
                    0x5d,
                    1,
                )(s1) {
                    Err((_, ListProblem::Start(row, col), _)) => fails(
                        result,
                        MadeProgress,
                        EExposes::ListStart(row, col),
                        s,
                    ),
                    Err((_, ListProblem::End(row, col), _)) => fails(
                        result,
                        MadeProgress,
                        EExposes::ListEnd(row, col),
                        s,
                    ),
                    Err((_, ListProblem::Space(bad, row, col), _)) => fails(
                        result,
                        MadeProgress,
                        EExposes::Space(bad, row, col),
                        s,
                    ),
                    Err((_, ListProblem::Indent(row, col), _)) => fails(
                        result,
                        MadeProgress,
                        EExposes::IndentListEnd(row, col),
                        s,
                    ),
                    Err((_, ListProblem::Entry(_, row, col), _)) => fails(
                        result,
                        MadeProgress,
                        EExposes::Identifier(row, col),
                        s,
                    ),
                    Ok((_, entries, s2)) => {
                        &&& result matches Ok((MadeProgress, section, end))
                        &&& section == (around, entries)
                        &&& end == s2
                    },
                },
            }
        }),
{
    reveal(exposes_values);
    law_keyword_backtracks(1, "exposes"@, s);
}

/// The `exposes` list of a platform is the keyword between blank space, and the entries in
/// their brackets. Where one of them fails, that is the failure.
pub proof fn law_exposes_modules_parts(s: StateView)
    ensures
        ({
            let result = exposes_modules()(s);
            match spaces_around_keyword(1, "exposes"@)(s) {
                Err((p, KeywordProblem::Expectation(row, col), at)) => fails(
                    result,
                    p,
                    EExposes::Exposes(row, col),
                    at,
                ),
                Err((p, KeywordProblem::Space(bad, row, col), at)) => fails(
                    result,
                    p,
                    EExposes::Space(bad, row, col),
                    at,
                ),
                Err((p, KeywordProblem::IndentBefore(row, col), at)) => fails(
                    result,
                    p,
                    EExposes::IndentExposes(row, col),
                    at,
                ),
                Err((p, KeywordProblem::IndentAfter(row, col), at)) => fails(
                    result,
                    p,
                    EExposes::IndentListStart(row, col),
                    at,
                ),
                Ok((_, around, s1)) => match collection_e(
                    0x5b,
                    exposes_module(),
                    0x2c,
                    0x5d,
                    1,
                )(s1) {
                    Err((_, ListProblem::Start(row, col), _)) => fails(
                        result,
                        MadeProgress,
                        EExposes::ListStart(row, col),
                        s,
                    ),
                    Err((_, ListProblem::End(row, col), _)) => fails(
                        result,
                        MadeProgress,
                        EExposes::ListEnd(row, col),
                        s,
                    ),
                    Err((_, ListProblem::Space(bad, row, col), _)) => fails(
                        result,
                        MadeProgress,
                        EExposes::Space(bad, row, col),
                        s,
                    ),
                    Err((_, ListProblem::Indent(row, col), _)) => fails(
                        result,
                        MadeProgress,
                        EExposes::IndentListEnd(row, col),
                        s,
                    ),
                    Err((_, ListProblem::Entry(_, row, col), _)) => fails(
                        result,
                        MadeProgress,
                        EExposes::Identifier(row, col),
                        s,
                    ),
                    Ok((_, entries, s2)) => {
                        &&& result matches Ok((MadeProgress, section, end))
                        &&& section == (around, entries)
                        &&& end == s2
                    },
                },
            }
        }),
{
    reveal(exposes_modules);
    law_keyword_backtracks(1, "exposes"@, s);
}

/// A `provides` list is the keyword between blank space, and the entries in
/// their brackets. Where one of them fails, that is the failure.
pub proof fn law_provides_parts(s: StateView)
    ensures
        ({
            let result = provides_without_to()(s);
            match spaces_around_keyword(1, "provides"@)(s) {
                Err((p, KeywordProblem::Expectation(row, col), at)) => fails(
                    result,
                    p,
                    EProvides::Provides(row, col),
                    at,
                ),
                Err((p, KeywordProblem::Space(bad, row, col), at)) => fails(
                    result,
                    p,
                    EProvides::Space(bad, row, col),
                    at,
                ),
                Err((p, KeywordProblem::IndentBefore(row, col), at)) => fails(
                    result,
                    p,
                    EProvides::IndentProvides(row, col),
                    at,
                ),
                Err((p, KeywordProblem::IndentAfter(row, col), at)) => fails(
                    result,
                    p,
                    EProvides::IndentListStart(row, col),
                    at,
                ),
                Ok((_, around, s1)) => match collection_e(
                    0x5b,
                    exposes_entry(),
                    0x2c,
                    0x5d,
                    1,
                )(s1) {
                    Err((_, ListProblem::Start(row, col), _)) => fails(
                        result,
                        MadeProgress,
                        EProvides::ListStart(row, col),
                        s,
                    ),
                    Err((_, ListProblem::End(row, col), _)) => fails(
                        result,
                        MadeProgress,
                        EProvides::ListEnd(row, col),
                        s,
                    ),
                    Err((_, ListProblem::Space(bad, row, col), _)) => fails(
                        result,
                        MadeProgress,
                        EProvides::Space(bad, row, col),
                        s,
                    ),
                    Err((_, ListProblem::Indent(row, col), _)) => fails(
                        result,
                        MadeProgress,
                        EProvides::IndentListEnd(row, col),
                        s,
                    ),
                    Err((_, ListProblem::Entry(_, row, col), _)) => fails(
                        result,
                        MadeProgress,
                        EProvides::Identifier(row, col),
                        s,
                    ),
                    Ok((_, entries, s2)) => {
                        &&& result matches Ok((MadeProgress, section, end))
                        &&& section == (around, entries)
                        &&& end == s2
                    },
                },
            }
        }),
{
    reveal(provides_without_to);
    law_keyword_backtracks(1, "provides"@, s);
}

/// An `imports` list is the keyword between blank space, and the entries in
/// their brackets. Where one of them fails, that is the failure.
pub proof fn law_imports_parts(s: StateView)
    ensures
        ({
            let result = imports()(s);
            match spaces_around_keyword(1, "imports"@)(s) {
                Err((p, KeywordProblem::Expectation(row, col), at)) => fails(
                    result,
                    p,
                    EImports::Imports(row, col),
                    at,
                ),
                Err((p, KeywordProblem::Space(bad, row, col), at)) => fails(
                    result,
                    p,
                    EImports::Space(bad, row, col),
                    at,
                ),
                Err((p, KeywordProblem::IndentBefore(row, col), at)) => fails(
                    result,
                    p,
                    EImports::IndentImports(row, col),
                    at,
                ),
                Err((p, KeywordProblem::IndentAfter(row, col), at)) => fails(
                    result,
                    p,
                    EImports::IndentListStart(row, col),
                    at,
                ),
                Ok((_, around, s1)) => match collection_e(
                    0x5b,
                    loc(imports_entry()),
                    0x2c,
                    0x5d,
                    1,
                )(s1) {
                    Err((_, ListProblem::Start(row, col), _)) => fails(
                        result,
                        MadeProgress,
                        EImports::ListStart(row, col),
                        s,
                    ),
                    Err((_, ListProblem::End(row, col), _)) => fails(
                        result,
                        MadeProgress,
                        EImports::ListEnd(row, col),
                        s,
                    ),
                    Err((_, ListProblem::Space(bad, row, col), _)) => fails(
                        result,
                        MadeProgress,
                        EImports::Space(bad, row, col),
                        s,
                    ),
                    Err((_, ListProblem::Indent(row, col), _)) => fails(
                        result,
                        MadeProgress,
                        EImports::IndentListEnd(row, col),
                        s,
                    ),
                    Err((_, ListProblem::Entry(e, _, _), _)) => fails(
                        result,
                        MadeProgress,
                        e,
                        s,
                    ),
                    Ok((_, entries, s2)) => {
                        &&& result matches Ok((MadeProgress, section, end))
                        &&& section == (around, entries)
                        &&& end == s2
                    },
                },
            }
        }),
{
    reveal(imports);
    law_keyword_backtracks(1, "imports"@, s);
}

/// A `requires` list is the keyword between blank space, and the entries in
/// their brackets. Where one of them fails, that is the failure.
pub proof fn law_requires_parts<T, X>(type_annotation: Grammar<Located<T>, X>, s: StateView)
    ensures
        ({
            let result = requires_section(type_annotation)(s);
            match spaces_around_keyword(1, "requires"@)(s) {
                Err((p, KeywordProblem::Expectation(row, col), at)) => fails(
                    result,
                    p,
                    ERequires::Requires(row, col),
                    at,
                ),
                Err((p, KeywordProblem::Space(bad, row, col), at)) => fails(
                    result,
                    p,
                    ERequires::Space(bad, row, col),
                    at,
                ),
                Err((p, KeywordProblem::IndentBefore(row, col), at)) => fails(
                    result,
                    p,
                    ERequires::IndentRequires(row, col),
                    at,
                ),
                Err((p, KeywordProblem::IndentAfter(row, col), at)) => fails(
                    result,
                    p,
                    ERequires::IndentListStart(row, col),
                    at,
                ),
                Ok((_, around, s1)) => match collection_e(
                    0x7b,
                    loc(typed_ident(type_annotation)),
                    0x2c,
                    0x7d,
                    1,
                )(s1) {
                    Err((_, ListProblem::Start(row, col), _)) => fails(
                        result,
                        MadeProgress,
                        ERequires::ListStart(row, col),
                        s,
                    ),
                    Err((_, ListProblem::End(row, col), _)) => fails(
                        result,
                        MadeProgress,
                        ERequires::ListEnd(row, col),
                        s,
                    ),
                    Err((_, ListProblem::Space(bad, row, col), _)) => fails(
                        result,
                        MadeProgress,
                        ERequires::Space(bad, row, col),
                        s,
                    ),
                    Err((_, ListProblem::Indent(row, col), _)) => fails(
                        result,
                        MadeProgress,
                        ERequires::IndentListEnd(row, col),
                        s,
                    ),
                    Err((_, ListProblem::Entry(e, row, col), _)) => fails(
                        result,
                        MadeProgress,
                        ERequires::TypedIdent(e, row, col),
                        s,
                    ),
                    Ok((_, entries, s2)) => {
                        &&& result matches Ok((MadeProgress, section, end))
                        &&& section == (around, entries)
                        &&& end == s2
                    },
                },
            }
        }),
{
    reveal(requires_section);
    law_keyword_backtracks(1, "requires"@, s);
}

/// A `packages` list is the keyword between blank space, and the entries in
/// their brackets. Where one of them fails, that is the failure.
pub proof fn law_packages_parts<P, X>(package_entry: Grammar<P, X>, s: StateView)
    ensures
        ({
            let result = packages(package_entry)(s);
            match spaces_around_keyword(1, "packages"@)(s) {
                Err((p, KeywordProblem::Expectation(row, col), at)) => fails(
                    result,
                    p,
                    EPackages::Packages(row, col),
                    at,
                ),
                Err((p, KeywordProblem::Space(bad, row, col), at)) => fails(
                    result,
                    p,
                    EPackages::Space(bad, row, col),
                    at,
                ),
                Err((p, KeywordProblem::IndentBefore(row, col), at)) => fails(
                    result,
                    p,
                    EPackages::IndentPackages(row, col),
                    at,
                ),
                Err((p, KeywordProblem::IndentAfter(row, col), at)) => fails(
                    result,
                    p,
                    EPackages::IndentListStart(row, col),
                    at,
                ),
                Ok((_, around, s1)) => match collection_e(
                    0x7b,
                    loc(package_entry),
                    0x2c,
                    0x7d,
                    1,
                )(s1) {
                    Err((_, ListProblem::Start(row, col), _)) => fails(
                        result,
                        MadeProgress,
                        EPackages::ListStart(row, col),
                        s,
                    ),
                    Err((_, ListProblem::End(row, col), _)) => fails(
                        result,
                        MadeProgress,
                        EPackages::ListEnd(row, col),
                        s,
                    ),
                    Err((_, ListProblem::Space(bad, row, col), _)) => fails(
                        result,
                        MadeProgress,
                        EPackages::Space(bad, row, col),
                        s,
                    ),
                    Err((_, ListProblem::Indent(row, col), _)) => fails(
                        result,
                        MadeProgress,
                        EPackages::IndentListEnd(row, col),
                        s,
                    ),
                    Err((_, ListProblem::Entry(_, row, col), _)) => fails(
                        result,
                        MadeProgress,
                        EPackages::PackageEntry(row, col),
                        s,
                    ),
                    Ok((_, entries, s2)) => {
                        &&& result matches Ok((MadeProgress, section, end))
                        &&& section.entries == entries
                        &&& section.before_packages_keyword == around.0
                        &&& section.after_packages_keyword == around.1
                        &&& end == s2
                    },
                },
            }
        }),
{
    reveal(packages);
    law_keyword_backtracks(1, "packages"@, s);
}

/// A keyword between blank space is the blank space, the word with a blank or a
/// comment behind it, and that blank space. Where the word is not there, nothing is
/// taken, and something else may stand in its place.
pub proof fn law_keyword_parts(min_indent: Col, keyword: Seq<char>, s: StateView)
    ensures
        ({
            let result = spaces_around_keyword(min_indent, keyword)(s);
            let word = encode_utf8(keyword);
            match space0(min_indent)(s) {
                Err((_, SpaceProblem::Space(bad, row, col), _)) => fails(
                    result,
                    NoProgress,
                    KeywordProblem::Space(bad, row, col),
                    s,
                ),
                Err((_, SpaceProblem::Indent(row, col), _)) => fails(
                    result,
                    NoProgress,
                    KeywordProblem::IndentBefore(row, col),
                    s,
                ),
                Ok((_, before, s1)) => {
                    let s2 = s1.skip(word.len() as int);
                    let behind = s1.bytes.skip(word.len() as int);
                    if word.is_prefix_of(s1.bytes) && s1.has_room(word.len() as int)
                        && behind.len() > 0 && (behind[0] == 0x20 || behind[0] == 0x0a || behind[0]
                        == 0x23) {
                        match space0(min_indent)(s2) {
                            Err((_, SpaceProblem::Space(bad, row, col), _)) => fails(
                                result,
                                MadeProgress,
                                KeywordProblem::Space(bad, row, col),
                                s,
                            ),
                            Err((_, SpaceProblem::Indent(row, col), _)) => fails(
                                result,
                                MadeProgress,
                                KeywordProblem::IndentAfter(row, col),
                                s,
                            ),
                            Ok((_, after, s3)) => gives(result, MadeProgress, (before, after), s3),
                        }
                    } else {
                        fails(
                            result,
                            NoProgress,
                            KeywordProblem::Expectation(s1.line, s1.column),
                            s,
                        )
                    }
                },
            }
        }),
{
}

/// What is provided, and to whom, is a `provides` list, the keyword `to` and a
/// package. Where one of them fails, that is the failure.
pub proof fn law_provides_to_parts<P, X>(package_or_path: Grammar<P, X>, s: StateView)
    ensures
        ({
            let result = provides_to(package_or_path)(s);
            match provides_without_to()(s) {
                Err((p, e, at)) => fails(result, p, e, at),
                Ok((_, list, s1)) => match spaces_around_keyword(1, "to"@)(s1) {
                    Err((_, KeywordProblem::Expectation(row, col), _)) => fails(
                        result,
                        MadeProgress,
                        EProvides::To(row, col),
                        s,
                    ),
                    Err((_, KeywordProblem::Space(bad, row, col), _)) => fails(
                        result,
                        MadeProgress,
                        EProvides::Space(bad, row, col),
                        s,
                    ),
                    Err((_, KeywordProblem::IndentBefore(row, col), _)) => fails(
                        result,
                        MadeProgress,
                        EProvides::IndentTo(row, col),
                        s,
                    ),
                    Err((_, KeywordProblem::IndentAfter(row, col), _)) => fails(
                        result,
                        MadeProgress,
                        EProvides::IndentListStart(row, col),
                        s,
                    ),
                    Ok((_, around, s2)) => match provides_to_package(package_or_path)(s2) {
                        Err((_, _, at)) => fails(
                            result,
                            MadeProgress,
                            EProvides::Package(at.line, at.column),
                            s,
                        ),
                        Ok((_, to, s3)) => {
                            &&& result matches Ok((MadeProgress, section, end))
                            &&& section.entries == list.1
                            &&& section.before_provides_keyword == list.0.0
                            &&& section.after_provides_keyword == list.0.1
                            &&& section.before_to_keyword == around.0
                            &&& section.after_to_keyword == around.1
                            &&& stands(section.to, to, s2, s3)
                            &&& end == s3
                        },
                    },
                },
            }
        }),
{
    reveal(provides_to);
    law_provides_whole(package_or_path);
    assert(whole_or_nothing(provides_without_to()));
    law_keyword_backtracks(1, "to"@, provides_without_to()(s)->Ok_0.2);
}

/// What an app is provided to is the name of a listed package where a lowercase
/// letter comes next, and another package where none does.
pub proof fn law_to_package_parts<P, X>(package_or_path: Grammar<P, X>, s: StateView)
    ensures
        ({
            let result = provides_to_package(package_or_path)(s);
            match lowercase_ident()(s) {
                Ok((p, name, s1)) => gives(result, p, ToView::ExistingPackage(name), s1),
                Err((MadeProgress, e, at)) => fails(
                    result,
                    MadeProgress,
                    ToProblem::Existing(e),
                    at,
                ),
                Err((NoProgress, _, at)) => match package_or_path(at) {
                    Ok((p, package, s1)) => gives(result, p, ToView::NewPackage(package), s1),
                    Err((p, e, end)) => fails(result, p, ToProblem::New(e), end),
                },
            }
        }),
{
}

/// A name with its type is the name, the blank space, a colon, and the type behind
/// blank space. Where one of them fails, that is the failure.
pub proof fn law_typed_ident_parts<T, X>(type_annotation: Grammar<Located<T>, X>, s: StateView)
    ensures
        ({
            let result = typed_ident(type_annotation)(s);
            match lowercase_ident()(s) {
                Err((p, _, at)) => fails(
                    result,
                    p,
                    ETypedIdent::Identifier(at.line, at.column),
                    at,
                ),
                Ok((p1, name, s1)) => match space0(0)(s1) {
                    Err((p, SpaceProblem::Space(bad, row, col), _)) => fails(
                        result,
                        p1.or(p),
                        ETypedIdent::Space(bad, row, col),
                        s,
                    ),
                    Err((p, SpaceProblem::Indent(row, col), _)) => fails(
                        result,
                        p1.or(p),
                        ETypedIdent::IndentHasType(row, col),
                        s,
                    ),
                    Ok((p2, before, s2)) => match s2.bytes.len() > 0 && s2.bytes[0] == 0x3a
                        && s2.has_room(1) {
                        false => fails(
                            result,
                            p1.or(p2),
                            ETypedIdent::HasType(s2.line, s2.column),
                            s,
                        ),
                        true => match space0(0)(s2.skip(1)) {
                            Err((_, SpaceProblem::Space(bad, row, col), _)) => fails(
                                result,
                                MadeProgress,
                                ETypedIdent::Space(bad, row, col),
                                s,
                            ),
                            Err((_, SpaceProblem::Indent(row, col), _)) => fails(
                                result,
                                MadeProgress,
                                ETypedIdent::IndentType(row, col),
                                s,
                            ),
                            Ok((_, between, s3)) => match type_annotation(s3) {
                                Err((_, e, at)) => fails(
                                    result,
                                    MadeProgress,
                                    ETypedIdent::Type(e, at.line, at.column),
                                    s,
                                ),
                                Ok((_, given, s4)) => {
                                    &&& result matches Ok((MadeProgress, typed, end))
                                    &&& stands(typed.ident, name, s, s1)
                                    &&& typed.spaces_before_colon == before
                                    &&& typed.ann.region == given.region
                                    &&& between.len() == 0
                                        ==> typed.ann.value == SpacedView::Item(given.value)
                                    &&& between.len() > 0
                                        ==> typed.ann.value == SpacedView::SpaceBefore(
                                            Box::new(SpacedView::Item(given.value)),
                                            between,
                                        )
                                    &&& end == s4
                                },
                            },
                        },
                    },
                },
            }
        }),
{
}

/// What a platform offers as effects is the keyword between blank space, the name
/// before the dot and the name behind it, the blank space behind that, and the
/// entries in their brackets. Where one of them fails, that is the failure.
pub proof fn law_effects_parts<T, X>(type_annotation: Grammar<Located<T>, X>, s: StateView)
    ensures
        ({
            let result = effects(type_annotation)(s);
            match spaces_around_keyword(1, "effects"@)(s) {
                Err((p, KeywordProblem::Expectation(row, col), at)) => fails(
                    result,
                    p,
                    EEffects::Effects(row, col),
                    at,
                ),
                Err((p, KeywordProblem::Space(bad, row, col), at)) => fails(
                    result,
                    p,
                    EEffects::Space(bad, row, col),
                    at,
                ),
                Err((p, KeywordProblem::IndentBefore(row, col), at)) => fails(
                    result,
                    p,
                    EEffects::IndentEffects(row, col),
                    at,
                ),
                Err((p, KeywordProblem::IndentAfter(row, col), at)) => fails(
                    result,
                    p,
                    EEffects::IndentListStart(row, col),
                    at,
                ),
                Ok((_, around, s1)) => match lowercase_ident()(s1) {
                    Err((p, _, at)) => fails(
                        result,
                        p,
                        EEffects::Shorthand(at.line, at.column),
                        s1,
                    ),
                    Ok((p1, shortname, s2)) => match s2.bytes.len() > 0 && s2.bytes[0] == 0x2e
                        && s2.has_room(1) {
                        false => fails(result, p1, EEffects::ShorthandDot(s2.line, s2.column), s1),
                        true => match uppercase_ident()(s2.skip(1)) {
                            Err((p, _, at)) => fails(
                                result,
                                p,
                                EEffects::TypeName(at.line, at.column),
                                at,
                            ),
                            Ok((p2, name, s3)) => match space0(1)(s3) {
                                Err((p, SpaceProblem::Space(bad, row, col), _)) => fails(
                                    result,
                                    p2.or(p),
                                    EEffects::Space(bad, row, col),
                                    s2.skip(1),
                                ),
                                Err((p, SpaceProblem::Indent(row, col), _)) => fails(
                                    result,
                                    p2.or(p),
                                    EEffects::IndentListStart(row, col),
                                    s2.skip(1),
                                ),
                                Ok((_, behind, s4)) => match collection_e(
                                    0x7b,
                                    loc(typed_ident(type_annotation)),
                                    0x2c,
                                    0x7d,
                                    1,
                                )(s4) {
                                    Err((p, ListProblem::Start(row, col), at)) => fails(
                                        result,
                                        p,
                                        EEffects::ListStart(row, col),
                                        at,
                                    ),
                                    Err((p, ListProblem::End(row, col), at)) => fails(
                                        result,
                                        p,
                                        EEffects::ListEnd(row, col),
                                        at,
                                    ),
                                    Err((p, ListProblem::Space(bad, row, col), at)) => fails(
                                        result,
                                        p,
                                        EEffects::Space(bad, row, col),
                                        at,
                                    ),
                                    Err((p, ListProblem::Indent(row, col), at)) => fails(
                                        result,
                                        p,
                                        EEffects::IndentListEnd(row, col),
                                        at,
                                    ),
                                    Err((p, ListProblem::Entry(e, row, col), at)) => fails(
                                        result,
                                        p,
                                        EEffects::TypedIdent(e, row, col),
                                        at,
                                    ),
                                    Ok((_, entries, s5)) => {
                                        &&& result matches Ok((MadeProgress, section, end))
                                        &&& section.spaces_before_effects_keyword == around.0
                                        &&& section.spaces_after_effects_keyword == around.1
                                        &&& section.effect_shortname == shortname
                                        &&& section.effect_type_name == name
                                        &&& section.spaces_after_type_name == behind
                                        &&& section.entries == entries
                                        &&& end == s5
                                    },
                                },
                            },
                        },
                    },
                },
            }
        }),
{
    reveal(effects);
}

/// An import is the package where there is one, the module name, and the exposed
/// values where there are any.
pub proof fn law_import_parts(s: StateView)
    ensures
        ({
            let result = imports_entry()(s);
            match opt_shortname()(s) {
                Err((p, e, at)) => fails(result, p, e, at),
                Ok((p1, package, s1)) => match module_name()(s1) {
                    Err((p, _, at)) => fails(
                        result,
                        p1.or(p),
                        EImports::ModuleName(at.line, at.column),
                        s,
                    ),
                    Ok((p2, name, s2)) => match opt_exposed_values()(s2) {
                        Err((p, e, _)) => fails(result, p1.or(p2).or(p), e, s),
                        Ok((p3, values, s3)) => {
                            &&& result matches Ok((progress, import, end))
                            &&& progress == p1.or(p2).or(p3)
                            &&& import == (match (package, values) {
                                (Some(package), Some(values)) => ImportsEntryView::Package(
                                    package,
                                    name,
                                    values,
                                ),
                                (Some(package), None) => ImportsEntryView::Package(
                                    package,
                                    name,
                                    Seq::empty(),
                                ),
                                (None, Some(values)) => ImportsEntryView::Module(name, values),
                                (None, None) => ImportsEntryView::Module(name, Seq::empty()),
                            })
                            &&& end == s3
                        },
                    },
                },
            }
        }),
{
}

/// The package of an import is a name with a dot behind it. Where no lowercase letter
/// comes next, the import names none.
pub proof fn law_shortname_parts(s: StateView)
    ensures
        ({
            let result = opt_shortname()(s);
            match lowercase_ident()(s) {
                Err((MadeProgress, _, at)) => fails(
                    result,
                    MadeProgress,
                    EImports::Shorthand(at.line, at.column),
                    s,
                ),
                Err((NoProgress, _, _)) => gives(result, NoProgress, None, s),
                Ok((p1, name, s1)) => {
                    &&& s1.bytes.len() > 0 && s1.bytes[0] == 0x2e && s1.has_room(1)
                        ==> gives(result, MadeProgress, Some(name), s1.skip(1))
                    &&& !(s1.bytes.len() > 0 && s1.bytes[0] == 0x2e && s1.has_room(1))
                        ==> (match p1 {
                        MadeProgress => fails(
                            result,
                            MadeProgress,
                            EImports::ShorthandDot(s1.line, s1.column),
                            s,
                        ),
                        NoProgress => gives(result, NoProgress, None, s),
                    })
                },
            }
        }),
{
}

/// The values that an import exposes stand in curly brackets behind a dot. Where
/// there is no dot, it exposes none.
pub proof fn law_exposed_values_parts(s: StateView)
    ensures
        ({
            let result = opt_exposed_values()(s);
            if s.bytes.len() > 0 && s.bytes[0] == 0x2e && s.has_room(1) {
                match collection_e(0x7b, exposes_entry(), 0x2c, 0x7d, 1)(s.skip(1)) {
                    Ok((_, values, s1)) => gives(result, MadeProgress, Some(values), s1),
                    Err((_, ListProblem::Start(row, col), _)) => fails(
                        result,
                        MadeProgress,
                        EImports::SetStart(row, col),
                        s,
                    ),
                    Err((_, ListProblem::End(row, col), _)) => fails(
                        result,
                        MadeProgress,
                        EImports::SetEnd(row, col),
                        s,
                    ),
                    Err((_, ListProblem::Space(bad, row, col), _)) => fails(
                        result,
                        MadeProgress,
                        EImports::Space(bad, row, col),
                        s,
                    ),
                    Err((_, ListProblem::Indent(row, col), _)) => fails(
                        result,
                        MadeProgress,
                        EImports::IndentSetEnd(row, col),
                        s,
                    ),
                    Err((_, ListProblem::Entry(_, row, col), _)) => fails(
                        result,
                        MadeProgress,
                        EImports::Identifier(row, col),
                        s,
                    ),
                }
            } else {
                gives(result, NoProgress, None, s)
            }
        }),
{
}

/// The lines of blank space around a value go with it: those before it outermost.
pub open spec fn with_lines<A>(value: A, before: SpacesView, after: SpacesView) -> SpacedView<A> {
    let item = SpacedView::Item(value);
    let inner = if after.len() > 0 {
        SpacedView::SpaceAfter(Box::new(item), after)
    } else {
        item
    };
    if before.len() > 0 {
        SpacedView::SpaceBefore(Box::new(inner), before)
    } else {
        inner
    }
}

/// An entry of a list is the blank space, the entry, and the blank space behind it.
/// Its region is that of the entry, and the lines of the blank space go with it.
pub proof fn law_list_entry_parts<A, E>(p: Grammar<Located<A>, E>, min_indent: Col, s: StateView)
    ensures
        ({
            let result = list_entry(p, min_indent)(s);
            match space0(min_indent)(s) {
                Err((p, SpaceProblem::Space(bad, row, col), at)) => fails(
                    result,
                    p,
                    ListProblem::Space(bad, row, col),
                    at,
                ),
                Err((p, SpaceProblem::Indent(row, col), at)) => fails(
                    result,
                    p,
                    ListProblem::Indent(row, col),
                    at,
                ),
                Ok((p1, before, s1)) => match p(s1) {
                    Err((p, e, at)) => fails(
                        result,
                        p1.or(p),
                        ListProblem::Entry(e, at.line, at.column),
                        s,
                    ),
                    Ok((p2, entry, s2)) => match space0(min_indent)(s2) {
                        Err((p, SpaceProblem::Space(bad, row, col), _)) => fails(
                            result,
                            p1.or(p2.or(p)),
                            ListProblem::Space(bad, row, col),
                            s,
                        ),
                        Err((p, SpaceProblem::Indent(row, col), _)) => fails(
                            result,
                            p1.or(p2.or(p)),
                            ListProblem::Indent(row, col),
                            s,
                        ),
                        Ok((p3, after, s3)) => result matches Ok((p, found, end)) && {
                            &&& p == p1.or(p2.or(p3))
                            &&& found.region == entry.region
                            &&& found.value == with_lines(entry.value, before, after)
                            &&& end == s3
                        },
                    },
                },
            }
        }),
{
}

/// A definition of a module body is the blank space, the definition, and the blank
/// space behind it. Its region is that of the definition, and the lines of the blank
/// space go with it.
pub proof fn law_module_def_parts<V, X>(def: Grammar<V, X>, s: StateView)
    ensures
        ({
            let result = module_def(def)(s);
            match space0(0)(s) {
                Err((p, SpaceProblem::Space(bad, row, col), at)) => fails(
                    result,
                    p,
                    DefsError::Syntax(SyntaxError::Space(bad, row, col)),
                    at,
                ),
                Err((p, SpaceProblem::Indent(row, col), at)) => fails(
                    result,
                    p,
                    DefsError::Syntax(SyntaxError::OutdentedTooFar(row, col)),
                    at,
                ),
                Ok((p1, before, s1)) => match def(s1) {
                    Err((p, e, at)) => fails(result, p1.or(p), DefsError::Def(e), s),
                    Ok((p2, value, s2)) => match space0(0)(s2) {
                        Err((p, SpaceProblem::Space(bad, row, col), _)) => fails(
                            result,
                            p1.or(p2.or(p)),
                            DefsError::Syntax(SyntaxError::Space(bad, row, col)),
                            s,
                        ),
                        Err((p, SpaceProblem::Indent(row, col), _)) => fails(
                            result,
                            p1.or(p2.or(p)),
                            DefsError::Syntax(SyntaxError::OutdentedTooFar(row, col)),
                            s,
                        ),
                        Ok((p3, after, s3)) => result matches Ok((p, found, end)) && {
                            &&& p == p1.or(p2.or(p3))
                            &&& stands(found, with_lines(value, before, after), s1, s2)
                            &&& end == s3
                        },
                    },
                },
            }
        }),
{
}

/// A part that may be left out is there where it can be parsed, and left out where
/// it fails without progress: nothing is taken then.
pub proof fn law_optional_part<A, E>(p: Grammar<A, E>, s: StateView)
    ensures
        match p(s) {
            Ok((progress, value, end)) => gives(maybe(p)(s), progress, Some(value), end),
            Err((MadeProgress, e, end)) => fails(maybe(p)(s), MadeProgress, e, end),
            Err((NoProgress, _, _)) => gives(maybe(p)(s), NoProgress, None, s),
        },
{
}

/// What is parsed has the region from where it starts to where it ends.
pub proof fn law_region<A, E>(p: Grammar<A, E>, s: StateView)
    ensures
        match p(s) {
            Ok((progress, value, end)) => loc(p)(s) matches Ok((q, located, at)) && {
                &&& q == progress
                &&& located.value == value
                &&& located.region.start_line == s.line
                &&& located.region.start_col == s.column
                &&& located.region.end_line == end.line
                &&& located.region.end_col == end.column
                &&& at == end
            },
            Err((progress, problem, end)) => fails(loc(p)(s), progress, problem, end),
        },
{
}

/// The words that a header can start with, as they are written.
pub proof fn lemma_word_widths()
    ensures
        encode_utf8("app"@).len() == 3,
        encode_utf8("platform"@).len() == 8,
        encode_utf8("interface"@).len() == 9,
{
    reveal_strlit("app");
    reveal_strlit("platform");
    reveal_strlit("interface");
    is_ascii_chars_encode_utf8("app"@);
    is_ascii_chars_encode_utf8("platform"@);
    is_ascii_chars_encode_utf8("interface"@);
}

/// A header that starts with `app` goes on as that of an app, one that starts with
/// `platform` as that of a platform, and one that starts with `interface` as that of
/// an interface. Where that fails, it is the failure.
pub proof fn law_header_parts<S, XS, N, XN, E, XE, P, XP, T, XT>(
    string_literal: Grammar<S, XS>,
    package_name: Grammar<N, XN>,
    package_entry: Grammar<E, XE>,
    package_or_path: Grammar<P, XP>,
    type_annotation: Grammar<Located<T>, XT>,
    s: StateView,
)
    ensures
        ({
            let result = header(
                string_literal,
                package_name,
                package_entry,
                package_or_path,
                type_annotation,
            )(s);
            &&& word_next("app"@, s) ==> match app_header_help::<S, XS, E, XE, P, XP, XT>(
                string_literal,
                package_entry,
                package_or_path,
            )(s.skip(3)) {
                Ok((_, header, end)) => gives(
                    result,
                    MadeProgress,
                    ModuleView::App { header },
                    end,
                ),
                Err((_, e, _)) => fails(result, MadeProgress, HeaderError::Header(e), s),
            }
            &&& word_next("platform"@, s) ==> match platform_header_help::<N, XN, E, XE, T, XT, XS>(
                package_name,
                package_entry,
                type_annotation,
            )(s.skip(8)) {
                Ok((_, header, end)) => gives(
                    result,
                    MadeProgress,
                    ModuleView::Platform { header },
                    end,
                ),
                Err((_, e, _)) => fails(result, MadeProgress, HeaderError::Header(e), s),
            }
            &&& word_next("interface"@, s) ==> match interface_header_help::<XS, XT>()(s.skip(9)) {
                Ok((_, header, end)) => gives(
                    result,
                    MadeProgress,
                    ModuleView::Interface { header },
                    end,
                ),
                Err((_, e, _)) => fails(result, MadeProgress, HeaderError::Header(e), s),
            }
        }),
{
    lemma_words_differ(s);
    lemma_word_widths();
}

} // verus!
