//! Where the parts of a header stand: in the order of the source, without
//! overlap, and inside what was parsed.

use crate::ast::{AppHeaderView, InterfaceHeaderView, ModuleView, PlatformHeaderView};
use crate::blankspace::{lemma_forward_space0, space0};
use crate::collection::{collection_e, lemma_forward_list_entry, list_entry, list_mark, list_space};
use crate::combine::{
    forward, group_forward, lemma_forward_advances, loc, maybe, more_delimited, region_between,
    sep_by0, zero_or_more, Grammar,
};
use crate::forward::{
    lemma_forward_effect_shortname, lemma_forward_effect_type_name, lemma_forward_exposes_entry,
    lemma_forward_exposes_module, lemma_forward_imports_entry, lemma_forward_module_name,
    lemma_forward_provides_to_package, lemma_forward_spaces_around_keyword,
    lemma_forward_typed_ident,
};
use crate::grammar::{
    app_header_help, effect_shortname, effect_type_name, effects, exposes_entry, exposes_module,
    exposes_modules, exposes_values, header, imports, imports_entry, interface_header_help,
    module_name, packages, platform_header_help, provides_to, provides_to_package,
    provides_without_to, requires_section, spaces_around_keyword, typed_ident, CLOSE_CURLY,
    CLOSE_SQUARE, COMMA, MIN_INDENT, OPEN_CURLY, OPEN_SQUARE,
};
use crate::ident::{lemma_forward_ident, unqualified_ident};
use crate::lex::{ascii_string, lemma_forward_ascii_string, lemma_forward_word1};
use crate::region::{Col, Located, Region, Row};
use crate::state::StateView;
use vstd::prelude::*;

verus! {

/// Whether a place does not stand behind another one.
pub open spec fn not_behind(row: Row, col: Col, other_row: Row, other_col: Col) -> bool {
    row < other_row || (row == other_row && col <= other_col)
}

/// Whether a region stands between two states.
pub open spec fn between(start: StateView, region: Region, end: StateView) -> bool {
    &&& not_behind(start.line, start.column, region.start_line, region.start_col)
    &&& not_behind(region.start_line, region.start_col, region.end_line, region.end_col)
    &&& not_behind(region.end_line, region.end_col, end.line, end.column)
}

/// Whether a region ends before another one starts.
pub open spec fn before(region: Region, other: Region) -> bool {
    not_behind(region.end_line, region.end_col, other.start_line, other.start_col)
}

/// The regions of the entries of a list.
pub open spec fn regions<V>(list: Seq<Located<V>>) -> Seq<Region> {
    list.map_values(|entry: Located<V>| entry.region)
}

/// Whether some regions stand between two states, each before the ones that
/// follow it.
pub open spec fn in_order(start: StateView, found: Seq<Region>, end: StateView) -> bool {
    &&& not_behind(start.line, start.column, end.line, end.column)
    &&& forall|i: int| 0 <= i < found.len() ==> between(start, #[trigger] found[i], end)
    &&& forall|i: int, j: int|
        0 <= i < j < found.len() ==> before(#[trigger] found[i], #[trigger] found[j])
}

/// Regions that follow one another up to some state, and others that follow one
/// another from there, follow one another.
pub proof fn lemma_in_order_concat(
    start: StateView,
    found: Seq<Region>,
    mid: StateView,
    more: Seq<Region>,
    end: StateView,
)
    requires
        in_order(start, found, mid),
        in_order(mid, more, end),
    ensures
        in_order(start, found + more, end),
{
}

/// Whether what `p` parses stands where `p` parsed it.
pub open spec fn placed<A, E>(p: Grammar<Located<A>, E>) -> bool {
    forall|s: StateView|
        (#[trigger] p(s)) matches Ok((_, a, s1)) ==> between(s, a.region, s1)
}

/// A value with its region stands where it was parsed.
pub proof fn lemma_loc_placed<A, E>(p: Grammar<A, E>)
    requires
        forward(p),
    ensures
        placed(loc(p)),
{
    assert forall|s: StateView|
        (#[trigger] loc(p)(s)) matches Ok((_, a, s1)) ==> between(s, a.region, s1) by {
        lemma_forward_advances(p, s);
    }
}

proof fn lemma_list_entry_placed<A, E>(p: Grammar<Located<A>, E>, min_indent: Col)
    requires
        forward(p),
        placed(p),
    ensures
        placed(list_entry(p, min_indent)),
{
    broadcast use lemma_forward_space0;

    assert forall|s: StateView|
        (#[trigger] list_entry(p, min_indent)(s)) matches Ok((_, a, s1)) ==> between(
            s,
            a.region,
            s1,
        ) by {
        let space = space0(min_indent);
        lemma_forward_advances(space, s);
        if let Ok((_, _, s1)) = space(s) {
            if let Ok((_, _, s2)) = p(s1) {
                lemma_forward_advances(space, s2);
            }
        }
    }
}

proof fn lemma_more_in_order<A, D, E>(
    delimiter: Grammar<D, E>,
    p: Grammar<Located<A>, E>,
    found: Seq<Located<A>>,
    start: StateView,
    s: StateView,
)
    requires
        forward(delimiter),
        forward(p),
        placed(p),
        in_order(start, regions(found), s),
    ensures
        more_delimited(delimiter, p, found, s) matches Ok((_, list, end)) ==> in_order(
            start,
            regions(list),
            end,
        ),
    decreases s.bytes.len(),
{
    lemma_forward_advances(delimiter, s);
    if let Ok((_, _, s1)) = delimiter(s) {
        lemma_forward_advances(p, s1);
        if let Ok((_, a, s2)) = p(s1) {
            assert(regions(found.push(a)) =~= regions(found).push(a.region));
            if s2.bytes.len() < s.bytes.len() {
                lemma_more_in_order(delimiter, p, found.push(a), start, s2);
            }
        }
    }
}

/// The entries of a list stand in the order of the source, inside the list.
pub proof fn lemma_collection_in_order<A, E>(
    opening: u8,
    p: Grammar<Located<A>, E>,
    delimiter: u8,
    closing: u8,
    min_indent: Col,
    s: StateView,
)
    requires
        forward(p),
        placed(p),
    ensures
        collection_e(opening, p, delimiter, closing, min_indent)(s) matches Ok((_, list, end))
            ==> in_order(s, regions(list), end),
{
    reveal(collection_e);
    broadcast use {group_forward, lemma_forward_word1, lemma_forward_list_entry};

    let mark = list_mark::<E>(delimiter);
    let entry = list_entry(p, min_indent);
    lemma_list_entry_placed(p, min_indent);
    assert forall|s1: StateView|
        (#[trigger] sep_by0(mark, entry)(s1)) matches Ok((_, list, end)) ==> in_order(
            s1,
            regions(list),
            end,
        ) by {
        if let Ok((_, a, s2)) = entry(s1) {
            lemma_forward_advances(entry, s1);
            assert(regions(seq![a]) =~= seq![a.region]);
            lemma_more_in_order(mark, entry, seq![a], s1, s2);
        }
    }
    lemma_forward_advances(zero_or_more(list_space::<E>()), s.skip(1));
}

/// A list behind a keyword stands in the order of the source too.
proof fn lemma_list_after_keyword<A, E>(
    keyword: Seq<char>,
    opening: u8,
    p: Grammar<Located<A>, E>,
    closing: u8,
    s: StateView,
)
    requires
        forward(p),
        placed(p),
    ensures
        spaces_around_keyword(MIN_INDENT, keyword)(s) matches Ok((_, _, s1)) ==> (collection_e(
            opening,
            p,
            COMMA,
            closing,
            MIN_INDENT,
        )(s1) matches Ok((_, list, end)) ==> in_order(s, regions(list), end)),
{
    broadcast use lemma_forward_spaces_around_keyword;

    let around = spaces_around_keyword(MIN_INDENT, keyword);
    lemma_forward_advances(around, s);
    if let Ok((_, _, s1)) = around(s) {
        lemma_collection_in_order(opening, p, COMMA, closing, MIN_INDENT, s1);
    }
}

/// Exposed values stand in the order of the source.
pub proof fn law_exposes_values_in_order(s: StateView)
    ensures
        exposes_values()(s) matches Ok((_, (_, names), end)) ==> in_order(s, regions(names), end),
{
    broadcast use {lemma_forward_exposes_entry, lemma_forward_ident};

    reveal(exposes_values);
    lemma_loc_placed(unqualified_ident());
    lemma_list_after_keyword("exposes"@, OPEN_SQUARE, exposes_entry(), CLOSE_SQUARE, s);
}

/// Exposed modules stand in the order of the source.
pub proof fn law_exposes_modules_in_order(s: StateView)
    ensures
        exposes_modules()(s) matches Ok((_, (_, names), end)) ==> in_order(s, regions(names), end),
{
    broadcast use {lemma_forward_exposes_module, lemma_forward_module_name};

    reveal(exposes_modules);
    lemma_loc_placed(module_name());
    lemma_list_after_keyword("exposes"@, OPEN_SQUARE, exposes_module(), CLOSE_SQUARE, s);
}

/// What is provided stands in the order of the source.
pub proof fn law_provides_in_order(s: StateView)
    ensures
        provides_without_to()(s) matches Ok((_, (_, names), end)) ==> in_order(
            s,
            regions(names),
            end,
        ),
{
    broadcast use {lemma_forward_exposes_entry, lemma_forward_ident};

    reveal(provides_without_to);
    lemma_loc_placed(unqualified_ident());
    lemma_list_after_keyword("provides"@, OPEN_SQUARE, exposes_entry(), CLOSE_SQUARE, s);
}

/// What is provided stands before what it is provided to.
pub proof fn law_provides_to_in_order<P, X>(package_or_path: Grammar<P, X>, s: StateView)
    requires
        forward(package_or_path),
    ensures
        provides_to(package_or_path)(s) matches Ok((_, provides, end)) ==> in_order(
            s,
            regions(provides.entries).push(provides.to.region),
            end,
        ),
{
    broadcast use {lemma_forward_spaces_around_keyword, lemma_forward_provides_to_package};

    reveal(provides_to);
    law_provides_in_order(s);
    if let Ok((_, _, s1)) = provides_without_to()(s) {
        let around = spaces_around_keyword(MIN_INDENT, "to"@);
        lemma_forward_advances(around, s1);
        if let Ok((_, _, s2)) = around(s1) {
            lemma_forward_advances(provides_to_package(package_or_path), s2);
        }
    }
}

/// What is required stands in the order of the source.
pub proof fn law_requires_in_order<T, X>(type_annotation: Grammar<Located<T>, X>, s: StateView)
    requires
        forward(type_annotation),
    ensures
        requires_section(type_annotation)(s) matches Ok((_, (_, entries), end)) ==> in_order(
            s,
            regions(entries),
            end,
        ),
{
    broadcast use {group_forward, lemma_forward_typed_ident};

    reveal(requires_section);
    let entry = typed_ident(type_annotation);
    lemma_loc_placed(entry);
    lemma_list_after_keyword("requires"@, OPEN_CURLY, loc(entry), CLOSE_CURLY, s);
}

/// Packages stand in the order of the source.
pub proof fn law_packages_in_order<P, X>(package_entry: Grammar<P, X>, s: StateView)
    requires
        forward(package_entry),
    ensures
        packages(package_entry)(s) matches Ok((_, packages, end)) ==> in_order(
            s,
            regions(packages.entries),
            end,
        ),
{
    broadcast use group_forward;

    reveal(packages);
    lemma_loc_placed(package_entry);
    lemma_list_after_keyword("packages"@, OPEN_CURLY, loc(package_entry), CLOSE_CURLY, s);
}

/// Imports stand in the order of the source.
pub proof fn law_imports_in_order(s: StateView)
    ensures
        imports()(s) matches Ok((_, (_, entries), end)) ==> in_order(s, regions(entries), end),
{
    broadcast use {group_forward, lemma_forward_imports_entry};

    reveal(imports);
    lemma_loc_placed(imports_entry());
    lemma_list_after_keyword("imports"@, OPEN_SQUARE, loc(imports_entry()), CLOSE_SQUARE, s);
}

/// Effects stand in the order of the source.
pub proof fn law_effects_in_order<T, X>(type_annotation: Grammar<Located<T>, X>, s: StateView)
    requires
        forward(type_annotation),
    ensures
        effects(type_annotation)(s) matches Ok((_, effects, end)) ==> in_order(
            s,
            regions(effects.entries),
            end,
        ),
{
    broadcast use {
        group_forward,
        lemma_forward_typed_ident,
        lemma_forward_spaces_around_keyword,
        lemma_forward_effect_shortname,
        lemma_forward_effect_type_name,
    };

    reveal(effects);
    let entry = typed_ident(type_annotation);
    let around = spaces_around_keyword(MIN_INDENT, "effects"@);
    lemma_loc_placed(entry);
    lemma_forward_advances(around, s);
    if let Ok((_, _, s1)) = around(s) {
        lemma_forward_advances(effect_shortname::<X>(), s1);
        if let Ok((_, _, s2)) = effect_shortname::<X>()(s1) {
            lemma_forward_advances(effect_type_name::<X>(), s2);
            if let Ok((_, _, s3)) = effect_type_name::<X>()(s2) {
                lemma_collection_in_order(
                    OPEN_CURLY,
                    loc(entry),
                    COMMA,
                    CLOSE_CURLY,
                    MIN_INDENT,
                    s3,
                );
            }
        }
    }
}

/// The places of the parts of a header, as they should follow one another.
pub open spec fn header_regions<S, N, E, P, T>(module: ModuleView<S, N, E, P, T>) -> Seq<Region> {
    match module {
        ModuleView::Interface { header } => interface_regions(header),
        ModuleView::App { header } => app_regions(header),
        ModuleView::Platform { header } => platform_regions(header),
    }
}

pub open spec fn interface_regions(header: InterfaceHeaderView) -> Seq<Region> {
    seq![header.name.region] + regions(header.exposes) + regions(header.imports)
}

pub open spec fn app_regions<S, E, P>(header: AppHeaderView<S, E, P>) -> Seq<Region> {
    seq![header.name.region] + regions(header.packages) + regions(header.imports) + regions(
        header.provides,
    ).push(header.to.region)
}

pub open spec fn platform_regions<N, E, T>(header: PlatformHeaderView<N, E, T>) -> Seq<Region> {
    seq![header.name.region] + regions(header.requires) + regions(header.exposes) + regions(
        header.packages,
    ) + regions(header.imports) + regions(header.provides) + regions(header.effects.entries)
}

/// What a header starts with, behind its first word: blank space, and a name.
proof fn lemma_name_in_order<A, X>(name: Grammar<A, X>, s: StateView)
    requires
        forward(name),
    ensures
        space0(MIN_INDENT)(s) matches Ok((_, _, s1)) ==> (name(s1) matches Ok((_, _, s2))
            ==> in_order(s, seq![region_between(s1, s2)], s2)),
{
    broadcast use lemma_forward_space0;

    lemma_forward_advances(space0(MIN_INDENT), s);
    if let Ok((_, _, s1)) = space0(MIN_INDENT)(s) {
        lemma_forward_advances(name, s1);
    }
}

/// The parts of the header of an interface follow one another.
pub proof fn law_interface_in_order<S, T>(s: StateView)
    ensures
        interface_header_help::<S, T>()(s) matches Ok((_, header, end)) ==> in_order(
            s,
            interface_regions(header),
            end,
        ),
{
    reveal(interface_header_help);
    broadcast use lemma_forward_module_name;

    lemma_name_in_order(module_name(), s);
    if let Ok((_, header, end)) = interface_header_help::<S, T>()(s) {
        let s1 = space0(MIN_INDENT)(s)->Ok_0.2;
        let s2 = module_name()(s1)->Ok_0.2;
        let name = seq![header.name.region];
        law_exposes_values_in_order(s2);
        let s3 = exposes_values()(s2)->Ok_0.2;
        lemma_in_order_concat(s, name, s2, regions(header.exposes), s3);
        law_imports_in_order(s3);
        lemma_in_order_concat(s, name + regions(header.exposes), s3, regions(header.imports), end);
    }
}

/// The parts of the header of an app follow one another.
pub proof fn law_app_in_order<S, XS, E, XE, P, XP, T>(
    string_literal: Grammar<S, XS>,
    package_entry: Grammar<E, XE>,
    package_or_path: Grammar<P, XP>,
    s: StateView,
)
    requires
        forward(string_literal),
        forward(package_entry),
        forward(package_or_path),
    ensures
        app_header_help::<S, XS, E, XE, P, XP, T>(string_literal, package_entry, package_or_path)(
            s,
        ) matches Ok((_, header, end)) ==> in_order(s, app_regions(header), end),
{
    reveal(app_header_help);
    let app = app_header_help::<S, XS, E, XE, P, XP, T>(
        string_literal,
        package_entry,
        package_or_path,
    );
    lemma_name_in_order(string_literal, s);
    if let Ok((_, header, end)) = app(s) {
        let s1 = space0(MIN_INDENT)(s)->Ok_0.2;
        let s2 = string_literal(s1)->Ok_0.2;
        let name = seq![header.name.region];
        law_packages_in_order(package_entry, s2);
        let s3 = maybe(packages(package_entry))(s2)->Ok_0.2;
        assert(in_order(s2, regions(header.packages), s3));
        lemma_in_order_concat(s, name, s2, regions(header.packages), s3);
        law_imports_in_order(s3);
        let s4 = maybe(imports())(s3)->Ok_0.2;
        assert(in_order(s3, regions(header.imports), s4));
        let found = name + regions(header.packages);
        lemma_in_order_concat(s, found, s3, regions(header.imports), s4);
        law_provides_to_in_order(package_or_path, s4);
        let provided = regions(header.provides).push(header.to.region);
        lemma_in_order_concat(s, found + regions(header.imports), s4, provided, end);
    }
}

/// The parts of the header of a platform follow one another.
pub proof fn law_platform_in_order<N, XN, E, XE, T, XT, S>(
    package_name: Grammar<N, XN>,
    package_entry: Grammar<E, XE>,
    type_annotation: Grammar<Located<T>, XT>,
    s: StateView,
)
    requires
        forward(package_name),
        forward(package_entry),
        forward(type_annotation),
    ensures
        platform_header_help::<N, XN, E, XE, T, XT, S>(
            package_name,
            package_entry,
            type_annotation,
        )(s) matches Ok((_, header, end)) ==> in_order(s, platform_regions(header), end),
{
    reveal(platform_header_help);
    let platform = platform_header_help::<N, XN, E, XE, T, XT, S>(
        package_name,
        package_entry,
        type_annotation,
    );
    lemma_name_in_order(package_name, s);
    if let Ok((_, header, end)) = platform(s) {
        let s1 = space0(MIN_INDENT)(s)->Ok_0.2;
        let s2 = package_name(s1)->Ok_0.2;
        let name = seq![header.name.region];
        law_requires_in_order(type_annotation, s2);
        let s3 = requires_section(type_annotation)(s2)->Ok_0.2;
        lemma_in_order_concat(s, name, s2, regions(header.requires), s3);
        let found3 = name + regions(header.requires);
        law_exposes_modules_in_order(s3);
        let s4 = exposes_modules()(s3)->Ok_0.2;
        lemma_in_order_concat(s, found3, s3, regions(header.exposes), s4);
        let found4 = found3 + regions(header.exposes);
        law_packages_in_order(package_entry, s4);
        let s5 = packages(package_entry)(s4)->Ok_0.2;
        lemma_in_order_concat(s, found4, s4, regions(header.packages), s5);
        let found5 = found4 + regions(header.packages);
        law_imports_in_order(s5);
        let s6 = imports()(s5)->Ok_0.2;
        lemma_in_order_concat(s, found5, s5, regions(header.imports), s6);
        let found6 = found5 + regions(header.imports);
        law_provides_in_order(s6);
        let s7 = provides_without_to()(s6)->Ok_0.2;
        lemma_in_order_concat(s, found6, s6, regions(header.provides), s7);
        let found7 = found6 + regions(header.provides);
        law_effects_in_order(type_annotation, s7);
        lemma_in_order_concat(s, found7, s7, regions(header.effects.entries), end);
    }
}

/// The parts of a header, and the entries of its lists, stand in the order of
/// the source. None overlaps another, and all stand where the header was parsed.
pub proof fn law_header_in_order<S, XS, N, XN, E, XE, P, XP, T, XT>(
    string_literal: Grammar<S, XS>,
    package_name: Grammar<N, XN>,
    package_entry: Grammar<E, XE>,
    package_or_path: Grammar<P, XP>,
    type_annotation: Grammar<Located<T>, XT>,
    s: StateView,
)
    requires
        forward(string_literal),
        forward(package_name),
        forward(package_entry),
        forward(package_or_path),
        forward(type_annotation),
    ensures
        header(string_literal, package_name, package_entry, package_or_path, type_annotation)(
            s,
        ) matches Ok((_, module, end)) ==> in_order(s, header_regions(module), end),
{
    assert forall|word: Seq<char>|
        (#[trigger] ascii_string(word)(s)) matches Ok((_, _, s1)) ==> not_behind(
            s.line,
            s.column,
            s1.line,
            s1.column,
        ) by {
        lemma_forward_ascii_string(word);
        lemma_forward_advances(ascii_string(word), s);
    }
    if let Ok((_, _, s1)) = ascii_string("app"@)(s) {
        law_app_in_order::<S, XS, E, XE, P, XP, XT>(
            string_literal,
            package_entry,
            package_or_path,
            s1,
        );
    }
    if let Ok((_, _, s1)) = ascii_string("platform"@)(s) {
        law_platform_in_order::<N, XN, E, XE, T, XT, XS>(
            package_name,
            package_entry,
            type_annotation,
            s1,
        );
    }
    if let Ok((_, _, s1)) = ascii_string("interface"@)(s) {
        law_interface_in_order::<XS, XT>(s1);
    }
}

} // verus!
