//! What views keep: every part of a value stands in its view, in its own place. And
//! what the parsers with a type of their own parse.

use crate::ast::{
    AppHeader, CommentOrNewline, CommentOrNewlineView, Effects, ImportsEntry, ImportsEntryView,
    InterfaceHeader, List, Module, ModuleName, ModuleView, Packages, PlatformHeader, ProvidesTo,
    Spaced, SpacedView, To, ToView, TypedIdent,
};
use crate::combine::{grammar_of, loc, LocParser};
use crate::grammar::{header, imports_entry, module_defs, module_name, typed_ident};
use crate::ident::{ident, IdentParser};
use crate::module::{
    HeaderParser, ImportsEntryParser, ModuleDefsParser, ModuleNameParser, TypedIdentParser,
};
use crate::region::Located;
use crate::state::{outcome, ParseResult, Parser, State, StateView};
use vstd::prelude::*;

verus! {

/// The view of a state has the bytes that are left, and the same place.
pub proof fn law_state_view(state: State)
    ensures
        state@.bytes == state.bytes@,
        state@.line == state.line,
        state@.column == state.column,
        state@.indent_col == state.indent_col,
{
}

/// The view of a result has the same progress, the view of the value or the problem,
/// and the view of the state.
pub proof fn law_outcome_view<O: View, E>(result: ParseResult<O, E>)
    ensures
        match result {
            Ok((progress, value, state)) => outcome(result) matches Ok((p, v, s)) && p == progress
                && v == value@ && s == state@,
            Err((progress, problem, state)) => outcome(result) matches Err((p, e, s)) && p
                == progress && e == problem && s == state@,
        },
{
}

/// The view of a located value has the same region.
pub proof fn law_located_view<T: View>(located: Located<T>)
    ensures
        located@.value == located.value@,
        located@.region.start_line == located.region.start_line,
        located@.region.start_col == located.region.start_col,
        located@.region.end_line == located.region.end_line,
        located@.region.end_col == located.region.end_col,
{
}

/// The view of a list has the views of all its items, in their order.
pub proof fn law_list_view<T: View>(list: List<T>)
    ensures
        list@.len() == list.0@.len(),
        forall|i: int| 0 <= i < list.0@.len() ==> #[trigger] list@[i] == list.0@[i]@,
{
}

/// The view of a value with blank space around it has the same lines in the same
/// places.
pub proof fn law_spaced_view<T: View>(spaced: Spaced<T>)
    ensures
        match spaced {
            Spaced::Item(value) => spaced@ == SpacedView::Item(value@),
            Spaced::SpaceBefore(inner, spaces) => spaced@ matches SpacedView::SpaceBefore(v, lines)
                && *v == inner@ && lines == spaces@,
            Spaced::SpaceAfter(inner, spaces) => spaced@ matches SpacedView::SpaceAfter(v, lines)
                && *v == inner@ && lines == spaces@,
        },
{
}

/// The view of a line tells newlines, comments and doc comments apart, and has the
/// text of the comment.
pub proof fn law_line_view(line: CommentOrNewline)
    ensures
        match line {
            CommentOrNewline::Newline => line@ is Newline,
            CommentOrNewline::LineComment(text) => line@ matches CommentOrNewlineView::LineComment(
                t,
            ) && t == text@,
            CommentOrNewline::DocComment(text) => line@ matches CommentOrNewlineView::DocComment(t)
                && t == text@,
        },
{
}

/// The view of a module name is its text.
pub proof fn law_module_name_view(name: ModuleName)
    ensures
        name@ == name.0@,
{
}

/// The view of an import has its package, its module and its values.
pub proof fn law_import_view(import: ImportsEntry)
    ensures
        match import {
            ImportsEntry::Module(name, values) => import@ matches ImportsEntryView::Module(n, v)
                && n == name@ && v == values@,
            ImportsEntry::Package(package, name, values) => import@
                matches ImportsEntryView::Package(p, n, v) && p == package@ && n == name@ && v
                == values@,
        },
{
}

/// The view of what an app is provided to has the same package.
pub proof fn law_to_view<P: View>(to: To<P>)
    ensures
        match to {
            To::ExistingPackage(name) => to@ matches ToView::ExistingPackage(n) && n == name@,
            To::NewPackage(package) => to@ matches ToView::NewPackage(p) && p == package@,
        },
{
}

/// The view of a name with its type has each of their parts.
pub proof fn law_typed_ident_view<T: View>(typed_ident: TypedIdent<T>)
    ensures
        typed_ident@.ident == typed_ident.ident@,
        typed_ident@.spaces_before_colon == typed_ident.spaces_before_colon@,
        typed_ident@.ann == typed_ident.ann@,
{
}

/// The view of the effects of a platform has each of their parts.
pub proof fn law_effects_view<T: View>(effects: Effects<T>)
    ensures
        effects@.spaces_before_effects_keyword == effects.spaces_before_effects_keyword@,
        effects@.spaces_after_effects_keyword == effects.spaces_after_effects_keyword@,
        effects@.spaces_after_type_name == effects.spaces_after_type_name@,
        effects@.effect_shortname == effects.effect_shortname@,
        effects@.effect_type_name == effects.effect_type_name@,
        effects@.entries == effects.entries@,
{
}

/// The view of the packages of a module has each of their parts.
pub proof fn law_packages_view<E: View>(packages: Packages<E>)
    ensures
        packages@.entries == packages.entries@,
        packages@.before_packages_keyword == packages.before_packages_keyword@,
        packages@.after_packages_keyword == packages.after_packages_keyword@,
{
}

/// The view of what an app provides has each of its parts.
pub proof fn law_provides_to_view<P: View>(provides_to: ProvidesTo<P>)
    ensures
        provides_to@.entries == provides_to.entries@,
        provides_to@.to == provides_to.to@,
        provides_to@.before_provides_keyword == provides_to.before_provides_keyword@,
        provides_to@.after_provides_keyword == provides_to.after_provides_keyword@,
        provides_to@.before_to_keyword == provides_to.before_to_keyword@,
        provides_to@.after_to_keyword == provides_to.after_to_keyword@,
{
}

/// The view of the header of an interface has each of its parts.
pub proof fn law_interface_header_view(interface_header: InterfaceHeader)
    ensures
        interface_header@.name == interface_header.name@,
        interface_header@.exposes == interface_header.exposes@,
        interface_header@.imports == interface_header.imports@,
        interface_header@.after_interface_keyword == interface_header.after_interface_keyword@,
        interface_header@.before_exposes == interface_header.before_exposes@,
        interface_header@.after_exposes == interface_header.after_exposes@,
        interface_header@.before_imports == interface_header.before_imports@,
        interface_header@.after_imports == interface_header.after_imports@,
{
}

/// The view of the header of an app has each of its parts.
pub proof fn law_app_header_view<S: View, E: View, P: View>(app_header: AppHeader<S, E, P>)
    ensures
        app_header@.name == app_header.name@,
        app_header@.packages == app_header.packages@,
        app_header@.imports == app_header.imports@,
        app_header@.provides == app_header.provides@,
        app_header@.to == app_header.to@,
        app_header@.after_app_keyword == app_header.after_app_keyword@,
        app_header@.before_packages == app_header.before_packages@,
        app_header@.after_packages == app_header.after_packages@,
        app_header@.before_imports == app_header.before_imports@,
        app_header@.after_imports == app_header.after_imports@,
        app_header@.before_provides == app_header.before_provides@,
        app_header@.after_provides == app_header.after_provides@,
        app_header@.before_to == app_header.before_to@,
        app_header@.after_to == app_header.after_to@,
{
}

/// The view of the header of a platform has each of its parts.
pub proof fn law_platform_header_view<N: View, E: View, T: View>(
    platform_header: PlatformHeader<N, E, T>,
)
    ensures
        platform_header@.name == platform_header.name@,
        platform_header@.requires == platform_header.requires@,
        platform_header@.exposes == platform_header.exposes@,
        platform_header@.packages == platform_header.packages@,
        platform_header@.imports == platform_header.imports@,
        platform_header@.provides == platform_header.provides@,
        platform_header@.effects == platform_header.effects@,
        platform_header@.after_platform_keyword == platform_header.after_platform_keyword@,
        platform_header@.before_requires == platform_header.before_requires@,
        platform_header@.after_requires == platform_header.after_requires@,
        platform_header@.before_exposes == platform_header.before_exposes@,
        platform_header@.after_exposes == platform_header.after_exposes@,
        platform_header@.before_packages == platform_header.before_packages@,
        platform_header@.after_packages == platform_header.after_packages@,
        platform_header@.before_imports == platform_header.before_imports@,
        platform_header@.after_imports == platform_header.after_imports@,
        platform_header@.before_provides == platform_header.before_provides@,
        platform_header@.after_provides == platform_header.after_provides@,
{
}

/// The view of a module is of the same kind, and has its header.
pub proof fn law_module_view<S: View, N: View, E: View, P: View, T: View>(
    module: Module<S, N, E, P, T>,
)
    ensures
        match module {
            Module::Interface { header } => module@ matches ModuleView::Interface { header: h }
                && h == header@,
            Module::App { header } => module@ matches ModuleView::App { header: h } && h == header@,
            Module::Platform { header } => module@ matches ModuleView::Platform { header: h } && h
                == header@,
        },
{
}

/// A parser for module headers parses the header of a module, with the parsers of its
/// own terms.
pub proof fn law_header_parser<
    'a,
    A: View + 'a,
    S: Parser<'a>,
    N: Parser<'a>,
    E: Parser<'a>,
    P: Parser<'a>,
    T: Parser<'a, Output = Located<A>>,
>(parser: HeaderParser<A, S, N, E, P, T>, s: StateView)
    ensures
        parser.spec_parse(s) == header(
            grammar_of(parser.terms.string_literal),
            grammar_of(parser.terms.package_name),
            grammar_of(parser.terms.package_entry),
            grammar_of(parser.terms.package_or_path),
            grammar_of(parser.terms.type_annotation),
        )(s),
{
}

/// A parser for module bodies parses the definitions of a module, with the parser for
/// its own definitions.
pub proof fn law_defs_parser<'a, D: Parser<'a>>(parser: ModuleDefsParser<D>, s: StateView)
    ensures
        parser.spec_parse(s) == module_defs(grammar_of(parser.def))(s),
{
}

/// A parser for identifiers, for module names, for imports and for names with their
/// types parses these.
pub proof fn law_part_parsers<'a, A: View + 'a, T: Parser<'a, Output = Located<A>>>(
    ident_parser: IdentParser,
    name_parser: ModuleNameParser,
    import_parser: ImportsEntryParser,
    typed_parser: TypedIdentParser<A, T>,
    s: StateView,
)
    ensures
        Parser::<'a>::spec_parse(&ident_parser, s) == ident(ident_parser.initial)(s),
        Parser::<'a>::spec_parse(&name_parser, s) == module_name()(s),
        Parser::<'a>::spec_parse(&import_parser, s) == imports_entry()(s),
        Parser::<'a>::spec_parse(&typed_parser, s) == typed_ident(
            grammar_of(*typed_parser.type_annotation),
        )(s),
{
}

/// A borrowed parser parses what the parser itself does.
pub proof fn law_borrowed_parser<'a, P: Parser<'a>>(parser: P, s: StateView)
    ensures
        (&parser).spec_parse(s) == parser.spec_parse(s),
        grammar_of(parser)(s) == parser.spec_parse(s),
{
}

/// A parser for a value and its region parses the same value.
pub proof fn law_loc_parser<'a, P: Parser<'a>>(parser: LocParser<P>, s: StateView)
    ensures
        parser.spec_parse(s) == loc(grammar_of(parser.0))(s),
{
}

} // verus!
