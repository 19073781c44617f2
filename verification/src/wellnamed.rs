//! The names in a header: every one of them is a name of the right kind.

use crate::ast::{
    EffectsView, ImportsEntryView, ModuleView, NamesView, SpacedView, ToView, TypedIdentView,
    TypedIdentsView,
};
use crate::collection::{collection_e, list_entry, list_mark};
use crate::combine::{loc, more_delimited, sep_by0, Grammar};
use crate::grammar::{
    app_header_help, effect_shortname, effect_type_name, effects, exposes_entry, exposes_module,
    exposes_modules, exposes_values, header, imports, imports_entry, interface_header_help,
    module_name, opt_shortname, platform_header_help, provides_to, provides_to_package,
    provides_without_to, requires_section, typed_ident, CLOSE_CURLY, CLOSE_SQUARE, COMMA,
    MIN_INDENT, OPEN_CURLY, OPEN_SQUARE,
};
use crate::ident::Initial;
use crate::names::{is_ident, is_module_name, law_ident_parsed, law_module_name_parsed};
use crate::region::{Col, Located};
use crate::state::StateView;
use vstd::prelude::*;

verus! {

/// Whether whatever `p` parses is `good`.
pub open spec fn yields<A, E>(p: Grammar<A, E>, good: spec_fn(A) -> bool) -> bool {
    forall|s: StateView| (#[trigger] p(s)) matches Ok((_, a, _)) ==> good(a)
}

/// Whether all values in a list are `good`.
pub open spec fn all_items<V>(list: Seq<Located<SpacedView<V>>>, good: spec_fn(V) -> bool) -> bool {
    forall|i: int| 0 <= i < list.len() ==> good((#[trigger] list[i]).value.item())
}

proof fn lemma_list_entry_good<A, E>(
    p: Grammar<Located<A>, E>,
    min_indent: Col,
    good: spec_fn(A) -> bool,
)
    requires
        yields(p, |a: Located<A>| good(a.value)),
    ensures
        yields(list_entry(p, min_indent), |e: Located<SpacedView<A>>| good(e.value.item())),
{
    reveal_with_fuel(SpacedView::item, 3);
}

proof fn lemma_more_delimited_good<A, D, E>(
    delimiter: Grammar<D, E>,
    p: Grammar<Located<SpacedView<A>>, E>,
    found: Seq<Located<SpacedView<A>>>,
    s: StateView,
    good: spec_fn(A) -> bool,
)
    requires
        yields(p, |e: Located<SpacedView<A>>| good(e.value.item())),
        all_items(found, good),
    ensures
        more_delimited(delimiter, p, found, s) matches Ok((_, list, _)) ==> all_items(list, good),
    decreases s.bytes.len(),
{
    if let Ok((_, _, s1)) = delimiter(s) {
        if let Ok((_, a, s2)) = p(s1) {
            if s2.bytes.len() < s.bytes.len() {
                lemma_more_delimited_good(delimiter, p, found.push(a), s2, good);
            }
        }
    }
}

/// Where every entry is `good`, so is the whole list.
pub proof fn lemma_collection_good<A, E>(
    opening: u8,
    p: Grammar<Located<A>, E>,
    delimiter: u8,
    closing: u8,
    min_indent: Col,
    good: spec_fn(A) -> bool,
)
    requires
        yields(p, |a: Located<A>| good(a.value)),
    ensures
        yields(
            collection_e(opening, p, delimiter, closing, min_indent),
            |list: Seq<Located<SpacedView<A>>>| all_items(list, good),
        ),
{
    reveal(collection_e);
    let mark = list_mark::<E>(delimiter);
    let entry = list_entry(p, min_indent);
    lemma_list_entry_good(p, min_indent, good);
    assert forall|s: StateView|
        (#[trigger] sep_by0(mark, entry)(s)) matches Ok((_, list, _)) ==> all_items(list, good) by {
        if let Ok((_, a, s1)) = entry(s) {
            lemma_more_delimited_good(mark, entry, seq![a], s1, good);
        }
    }
}

/// Names that are identifiers.
pub open spec fn idents(names: NamesView) -> bool {
    all_items(names, |name: Seq<char>| is_ident(Initial::Alphabetic, name))
}

/// Names that are module names.
pub open spec fn module_names(names: NamesView) -> bool {
    all_items(names, |name: Seq<char>| is_module_name(name))
}

/// An import of a module by its name. The package, where it names one, is an
/// identifier that starts with a lowercase letter.
pub open spec fn well_named_import(entry: ImportsEntryView) -> bool {
    match entry {
        ImportsEntryView::Module(name, values) => is_module_name(name) && idents(values),
        ImportsEntryView::Package(package, name, values) => {
            &&& is_ident(Initial::Lowercase, package)
            &&& is_module_name(name)
            &&& idents(values)
        },
    }
}

/// Imports that are all well named.
pub open spec fn well_named_imports(entries: Seq<Located<SpacedView<ImportsEntryView>>>) -> bool {
    all_items(entries, |entry: ImportsEntryView| well_named_import(entry))
}

/// Names with types that all start with a lowercase letter.
pub open spec fn lowercase_idents<T>(entries: TypedIdentsView<T>) -> bool {
    all_items(
        entries,
        |entry: TypedIdentView<T>| is_ident(Initial::Lowercase, entry.ident.value),
    )
}

proof fn lemma_exposes_entry_good()
    ensures
        yields(
            exposes_entry(),
            |e: Located<Seq<char>>| is_ident(Initial::Alphabetic, e.value),
        ),
{
    assert forall|s: StateView|
        (#[trigger] exposes_entry()(s)) matches Ok((_, e, _)) ==> is_ident(
            Initial::Alphabetic,
            e.value,
        ) by {
        law_ident_parsed(Initial::Alphabetic, s);
    }
}

proof fn lemma_exposes_module_good()
    ensures
        yields(exposes_module(), |e: Located<Seq<char>>| is_module_name(e.value)),
{
    assert forall|s: StateView|
        (#[trigger] exposes_module()(s)) matches Ok((_, e, _)) ==> is_module_name(e.value) by {
        law_module_name_parsed(s);
    }
}

/// What `exposes` lists of values hold are identifiers.
pub proof fn law_exposes_values_named(s: StateView)
    ensures
        exposes_values()(s) matches Ok((_, (_, names), _)) ==> idents(names),
{
    reveal(exposes_values);
    lemma_exposes_entry_good();
    lemma_collection_good(
        OPEN_SQUARE,
        exposes_entry(),
        COMMA,
        CLOSE_SQUARE,
        MIN_INDENT,
        |name: Seq<char>| is_ident(Initial::Alphabetic, name),
    );
}

/// What `exposes` lists of modules hold are module names.
pub proof fn law_exposes_modules_named(s: StateView)
    ensures
        exposes_modules()(s) matches Ok((_, (_, names), _)) ==> module_names(names),
{
    reveal(exposes_modules);
    lemma_exposes_module_good();
    lemma_collection_good(
        OPEN_SQUARE,
        exposes_module(),
        COMMA,
        CLOSE_SQUARE,
        MIN_INDENT,
        |name: Seq<char>| is_module_name(name),
    );
}

/// What `provides` lists hold are identifiers.
pub proof fn law_provides_named(s: StateView)
    ensures
        provides_without_to()(s) matches Ok((_, (_, names), _)) ==> idents(names),
{
    reveal(provides_without_to);
    lemma_exposes_entry_good();
    lemma_collection_good(
        OPEN_SQUARE,
        exposes_entry(),
        COMMA,
        CLOSE_SQUARE,
        MIN_INDENT,
        |name: Seq<char>| is_ident(Initial::Alphabetic, name),
    );
}

/// What an app is provided to, where it is a package of the header, is an
/// identifier that starts with a lowercase letter.
pub open spec fn well_named_to<P>(to: ToView<P>) -> bool {
    to matches ToView::ExistingPackage(name) ==> is_ident(Initial::Lowercase, name)
}

/// What an app provides, and to what, is well named.
pub proof fn law_provides_to_named<P, X>(package_or_path: Grammar<P, X>, s: StateView)
    ensures
        provides_to(package_or_path)(s) matches Ok((_, provides, _)) ==> idents(provides.entries)
            && well_named_to(provides.to.value),
{
    reveal(provides_to);
    law_provides_named(s);
    assert forall|s1: StateView|
        (#[trigger] provides_to_package(package_or_path)(s1)) matches Ok((_, to, _))
            ==> well_named_to(to) by {
        law_ident_parsed(Initial::Lowercase, s1);
    }
}

/// An import is well named.
pub proof fn law_imports_entry_named(s: StateView)
    ensures
        imports_entry()(s) matches Ok((_, entry, _)) ==> well_named_import(entry),
{
    law_ident_parsed(Initial::Lowercase, s);
    if let Ok((_, _, s1)) = opt_shortname()(s) {
        law_module_name_parsed(s1);
        lemma_exposes_entry_good();
        lemma_collection_good(
            OPEN_CURLY,
            exposes_entry(),
            COMMA,
            CLOSE_CURLY,
            MIN_INDENT,
            |name: Seq<char>| is_ident(Initial::Alphabetic, name),
        );
    }
}

/// What `imports` lists hold is well named.
pub proof fn law_imports_named(s: StateView)
    ensures
        imports()(s) matches Ok((_, (_, entries), _)) ==> well_named_imports(entries),
{
    reveal(imports);
    assert forall|s1: StateView|
        (#[trigger] loc(imports_entry())(s1)) matches Ok((_, e, _)) ==> well_named_import(
            e.value,
        ) by {
        law_imports_entry_named(s1);
    }
    lemma_collection_good(
        OPEN_SQUARE,
        loc(imports_entry()),
        COMMA,
        CLOSE_SQUARE,
        MIN_INDENT,
        |entry: ImportsEntryView| well_named_import(entry),
    );
}

proof fn lemma_typed_ident_good<T, X>(type_annotation: Grammar<Located<T>, X>)
    ensures
        yields(
            loc(typed_ident(type_annotation)),
            |e: Located<TypedIdentView<T>>| is_ident(Initial::Lowercase, e.value.ident.value),
        ),
{
    assert forall|s: StateView|
        (#[trigger] loc(typed_ident(type_annotation))(s)) matches Ok((_, e, _)) ==> is_ident(
            Initial::Lowercase,
            e.value.ident.value,
        ) by {
        law_ident_parsed(Initial::Lowercase, s);
    }
}

/// What `requires` lists hold are names that start with a lowercase letter.
pub proof fn law_requires_named<T, X>(type_annotation: Grammar<Located<T>, X>, s: StateView)
    ensures
        requires_section(type_annotation)(s) matches Ok((_, (_, entries), _)) ==> lowercase_idents(
            entries,
        ),
{
    reveal(requires_section);
    lemma_typed_ident_good(type_annotation);
    lemma_collection_good(
        OPEN_CURLY,
        loc(typed_ident(type_annotation)),
        COMMA,
        CLOSE_CURLY,
        MIN_INDENT,
        |entry: TypedIdentView<T>| is_ident(Initial::Lowercase, entry.ident.value),
    );
}

/// Effects of a type that starts with an uppercase letter. Its short name and
/// the names of the effects start with lowercase letters.
pub open spec fn well_named_effects<T>(effects: EffectsView<T>) -> bool {
    &&& is_ident(Initial::Lowercase, effects.effect_shortname)
    &&& is_ident(Initial::Uppercase, effects.effect_type_name)
    &&& lowercase_idents(effects.entries)
}

/// An `effects` list is well named.
pub proof fn law_effects_named<T, X>(type_annotation: Grammar<Located<T>, X>, s: StateView)
    ensures
        effects(type_annotation)(s) matches Ok((_, effects, _)) ==> well_named_effects(effects),
{
    reveal(effects);
    lemma_typed_ident_good(type_annotation);
    lemma_collection_good(
        OPEN_CURLY,
        loc(typed_ident(type_annotation)),
        COMMA,
        CLOSE_CURLY,
        MIN_INDENT,
        |entry: TypedIdentView<T>| is_ident(Initial::Lowercase, entry.ident.value),
    );
    assert forall|s1: StateView|
        (#[trigger] effect_shortname::<X>()(s1)) matches Ok((_, name, _)) ==> is_ident(
            Initial::Lowercase,
            name,
        ) by {
        law_ident_parsed(Initial::Lowercase, s1);
    }
    assert forall|s1: StateView|
        (#[trigger] effect_type_name::<X>()(s1)) matches Ok((_, (name, _), _)) ==> is_ident(
            Initial::Uppercase,
            name,
        ) by {
        law_ident_parsed(Initial::Uppercase, s1);
    }
}

/// A module whose header holds only names of the right kind.
pub open spec fn well_named<S, N, E, P, T>(module: ModuleView<S, N, E, P, T>) -> bool {
    match module {
        ModuleView::Interface { header } => {
            &&& is_module_name(header.name.value)
            &&& idents(header.exposes)
            &&& well_named_imports(header.imports)
        },
        ModuleView::App { header } => {
            &&& well_named_imports(header.imports)
            &&& idents(header.provides)
            &&& well_named_to(header.to.value)
        },
        ModuleView::Platform { header } => {
            &&& lowercase_idents(header.requires)
            &&& module_names(header.exposes)
            &&& well_named_imports(header.imports)
            &&& idents(header.provides)
            &&& well_named_effects(header.effects)
        },
    }
}

proof fn lemma_interface_named<S, T>(s: StateView)
    ensures
        interface_header_help::<S, T>()(s) matches Ok((_, header, _)) ==> {
            &&& is_module_name(header.name.value)
            &&& idents(header.exposes)
            &&& well_named_imports(header.imports)
        },
{
    reveal(interface_header_help);
    assert forall|s1: StateView|
        (#[trigger] module_name()(s1)) matches Ok((_, name, _)) ==> is_module_name(name) by {
        law_module_name_parsed(s1);
    }
    assert forall|s1: StateView|
        (#[trigger] exposes_values()(s1)) matches Ok((_, (_, names), _)) ==> idents(names) by {
        law_exposes_values_named(s1);
    }
    assert forall|s1: StateView|
        (#[trigger] imports()(s1)) matches Ok((_, (_, entries), _)) ==> well_named_imports(
            entries,
        ) by {
        law_imports_named(s1);
    }
}

proof fn lemma_app_named<S, XS, E, XE, P, XP, T>(
    string_literal: Grammar<S, XS>,
    package_entry: Grammar<E, XE>,
    package_or_path: Grammar<P, XP>,
    s: StateView,
)
    ensures
        app_header_help::<S, XS, E, XE, P, XP, T>(string_literal, package_entry, package_or_path)(
            s,
        ) matches Ok((_, header, _)) ==> {
            &&& well_named_imports(header.imports)
            &&& idents(header.provides)
            &&& well_named_to(header.to.value)
        },
{
    reveal(app_header_help);
    assert forall|s1: StateView|
        (#[trigger] imports()(s1)) matches Ok((_, (_, entries), _)) ==> well_named_imports(
            entries,
        ) by {
        law_imports_named(s1);
    }
    assert forall|s1: StateView|
        (#[trigger] provides_to(package_or_path)(s1)) matches Ok((_, provides, _)) ==> idents(
            provides.entries,
        ) && well_named_to(provides.to.value) by {
        law_provides_to_named(package_or_path, s1);
    }
}

proof fn lemma_platform_named<N, XN, E, XE, T, XT, S>(
    package_name: Grammar<N, XN>,
    package_entry: Grammar<E, XE>,
    type_annotation: Grammar<Located<T>, XT>,
    s: StateView,
)
    ensures
        platform_header_help::<N, XN, E, XE, T, XT, S>(
            package_name,
            package_entry,
            type_annotation,
        )(s) matches Ok((_, header, _)) ==> {
            &&& lowercase_idents(header.requires)
            &&& module_names(header.exposes)
            &&& well_named_imports(header.imports)
            &&& idents(header.provides)
            &&& well_named_effects(header.effects)
        },
{
    reveal(platform_header_help);
    assert forall|s1: StateView|
        (#[trigger] requires_section(type_annotation)(s1)) matches Ok((_, (_, entries), _))
            ==> lowercase_idents(entries) by {
        law_requires_named(type_annotation, s1);
    }
    assert forall|s1: StateView|
        (#[trigger] exposes_modules()(s1)) matches Ok((_, (_, names), _)) ==> module_names(
            names,
        ) by {
        law_exposes_modules_named(s1);
    }
    assert forall|s1: StateView|
        (#[trigger] imports()(s1)) matches Ok((_, (_, entries), _)) ==> well_named_imports(
            entries,
        ) by {
        law_imports_named(s1);
    }
    assert forall|s1: StateView|
        (#[trigger] provides_without_to()(s1)) matches Ok((_, (_, names), _)) ==> idents(names) by {
        law_provides_named(s1);
    }
    assert forall|s1: StateView|
        (#[trigger] effects(type_annotation)(s1)) matches Ok((_, effects, _)) ==>
            well_named_effects(effects) by {
        law_effects_named(type_annotation, s1);
    }
}

/// Every name in a header is a name of its kind: modules have module names, and
/// what is exposed, provided, required or imported has identifiers.
pub proof fn law_header_named<S, XS, N, XN, E, XE, P, XP, T, XT>(
    string_literal: Grammar<S, XS>,
    package_name: Grammar<N, XN>,
    package_entry: Grammar<E, XE>,
    package_or_path: Grammar<P, XP>,
    type_annotation: Grammar<Located<T>, XT>,
    s: StateView,
)
    ensures
        header(string_literal, package_name, package_entry, package_or_path, type_annotation)(
            s,
        ) matches Ok((_, module, _)) ==> well_named(module),
{
    assert forall|s1: StateView|
        (#[trigger] interface_header_help::<XS, XT>()(s1)) matches Ok((_, header, _)) ==> {
            &&& is_module_name(header.name.value)
            &&& idents(header.exposes)
            &&& well_named_imports(header.imports)
        } by {
        lemma_interface_named::<XS, XT>(s1);
    }
    let app = app_header_help::<S, XS, E, XE, P, XP, XT>(
        string_literal,
        package_entry,
        package_or_path,
    );
    assert forall|s1: StateView|
        (#[trigger] app(s1)) matches Ok((_, header, _)) ==> {
            &&& well_named_imports(header.imports)
            &&& idents(header.provides)
            &&& well_named_to(header.to.value)
        } by {
        lemma_app_named::<S, XS, E, XE, P, XP, XT>(
            string_literal,
            package_entry,
            package_or_path,
            s1,
        );
    }
    let platform = platform_header_help::<N, XN, E, XE, T, XT, XS>(
        package_name,
        package_entry,
        type_annotation,
    );
    assert forall|s1: StateView|
        (#[trigger] platform(s1)) matches Ok((_, header, _)) ==> {
            &&& lowercase_idents(header.requires)
            &&& module_names(header.exposes)
            &&& well_named_imports(header.imports)
            &&& idents(header.provides)
            &&& well_named_effects(header.effects)
        } by {
        lemma_platform_named::<N, XN, E, XE, T, XT, XS>(
            package_name,
            package_entry,
            type_annotation,
            s1,
        );
    }
}

} // verus!
