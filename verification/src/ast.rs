//! What a module header is parsed into. Each type has a view, in which strings
//! are sequences of characters and lists are sequences of views.
//!
//! The header holds terms of other grammars. Their types are parameters: `S`
//! stands for string literals, `N` for package names, `E` for the entries of a
//! `packages` list, `P` for packages or paths, and `T` for types.

use crate::arena::{alloc_in, into_bump_slice};
use crate::region::Located;
use bumpalo::Bump;
use vstd::prelude::*;

verus! {

/// A list in the arena.
#[derive(Debug, Clone, Copy, PartialEq)]
pub struct List<'a, T>(pub &'a [T]);

impl<'a, T: View> View for List<'a, T> {
    type V = Seq<T::V>;

    open spec fn view(&self) -> Seq<T::V> {
        views(self.0@)
    }
}

/// The views of some items, in their order.
pub open spec fn views<T: View>(items: Seq<T>) -> Seq<T::V> {
    items.map_values(|item: T| item@)
}

impl<'a, T: View> List<'a, T> {
    /// The list of the given items.
    pub fn from_vec(arena: &'a Bump, items: Vec<T>) -> (list: List<'a, T>)
        ensures
            list@ == views(items@),
    {
        List(into_bump_slice(arena, items))
    }

    /// The list without items.
    pub fn empty(arena: &'a Bump) -> (list: List<'a, T>)
        ensures
            list@ == Seq::<T::V>::empty(),
    {
        let list = List::from_vec(arena, Vec::new());
        assert(list@ =~= Seq::<T::V>::empty());
        list
    }

    pub fn is_empty(&self) -> (answer: bool)
        ensures
            answer == (self@.len() == 0),
    {
        self.0.len() == 0
    }
}

/// A line that blank space holds. A comment stands for its whole line.
#[derive(Debug, Clone, Copy, PartialEq, Eq)]
pub enum CommentOrNewline<'a> {
    Newline,
    LineComment(&'a str),
    DocComment(&'a str),
}

pub enum CommentOrNewlineView {
    Newline,
    LineComment(Seq<char>),
    DocComment(Seq<char>),
}

impl<'a> View for CommentOrNewline<'a> {
    type V = CommentOrNewlineView;

    open spec fn view(&self) -> CommentOrNewlineView {
        match self {
            CommentOrNewline::Newline => CommentOrNewlineView::Newline,
            CommentOrNewline::LineComment(text) => CommentOrNewlineView::LineComment(text@),
            CommentOrNewline::DocComment(text) => CommentOrNewlineView::DocComment(text@),
        }
    }
}

/// The lines that a stretch of blank space holds.
pub type Spaces<'a> = List<'a, CommentOrNewline<'a>>;

pub type SpacesView = Seq<CommentOrNewlineView>;

/// A value with the lines of blank space around it, where there are any.
#[derive(Debug, Clone, Copy, PartialEq)]
pub enum Spaced<'a, T> {
    Item(T),
    SpaceBefore(&'a Spaced<'a, T>, Spaces<'a>),
    SpaceAfter(&'a Spaced<'a, T>, Spaces<'a>),
}

pub enum SpacedView<V> {
    Item(V),
    SpaceBefore(Box<SpacedView<V>>, SpacesView),
    SpaceAfter(Box<SpacedView<V>>, SpacesView),
}

impl<'a, T: View> Spaced<'a, T> {
    pub open spec fn spaced_view(&self) -> SpacedView<T::V>
        decreases self,
    {
        match self {
            Spaced::Item(value) => SpacedView::Item(value@),
            Spaced::SpaceBefore(inner, spaces) => SpacedView::SpaceBefore(
                Box::new(inner.spaced_view()),
                spaces@,
            ),
            Spaced::SpaceAfter(inner, spaces) => SpacedView::SpaceAfter(
                Box::new(inner.spaced_view()),
                spaces@,
            ),
        }
    }
}

impl<'a, T: View> View for Spaced<'a, T> {
    type V = SpacedView<T::V>;

    open spec fn view(&self) -> SpacedView<T::V> {
        self.spaced_view()
    }
}

impl<V> SpacedView<V> {
    /// The value, without the blank space around it.
    pub open spec fn item(self) -> V
        decreases self,
    {
        match self {
            SpacedView::Item(value) => value,
            SpacedView::SpaceBefore(inner, _) => inner.item(),
            SpacedView::SpaceAfter(inner, _) => inner.item(),
        }
    }

    pub open spec fn with_spaces_before(self, spaces: SpacesView) -> SpacedView<V> {
        if spaces.len() == 0 {
            self
        } else {
            SpacedView::SpaceBefore(Box::new(self), spaces)
        }
    }

    pub open spec fn with_spaces_after(self, spaces: SpacesView) -> SpacedView<V> {
        if spaces.len() == 0 {
            self
        } else {
            SpacedView::SpaceAfter(Box::new(self), spaces)
        }
    }
}

impl<'a, T: View> Spaced<'a, T> {
    /// Adds the lines before the value, where there are any.
    pub fn with_spaces_before(self, arena: &'a Bump, spaces: Spaces<'a>) -> (spaced: Self)
        ensures
            spaced@ == self@.with_spaces_before(spaces@),
    {
        if spaces.is_empty() {
            self
        } else {
            Spaced::SpaceBefore(alloc_in(arena, self), spaces)
        }
    }

    /// Adds the lines after the value, where there are any.
    pub fn with_spaces_after(self, arena: &'a Bump, spaces: Spaces<'a>) -> (spaced: Self)
        ensures
            spaced@ == self@.with_spaces_after(spaces@),
    {
        if spaces.is_empty() {
            self
        } else {
            Spaced::SpaceAfter(alloc_in(arena, self), spaces)
        }
    }
}

/// The dotted name of a module.
#[derive(Debug, Clone, Copy, PartialEq, Eq)]
pub struct ModuleName<'a>(pub &'a str);

impl<'a> View for ModuleName<'a> {
    type V = Seq<char>;

    open spec fn view(&self) -> Seq<char> {
        self.0@
    }
}

impl<'a> ModuleName<'a> {
    pub fn new(name: &'a str) -> (module_name: ModuleName<'a>)
        ensures
            module_name@ == name@,
    {
        ModuleName(name)
    }
}

/// An exposed name.
pub type ExposesEntry<'a, T> = Spaced<'a, T>;

/// The names in a list of exposed values.
pub type ExposedValues<'a> = List<'a, Located<ExposesEntry<'a, &'a str>>>;

/// The view of a list of names, each with its place and the blank space around
/// it.
pub type NamesView = Seq<Located<SpacedView<Seq<char>>>>;

/// An entry of an `imports` list.
#[derive(Debug, Clone, Copy, PartialEq)]
pub enum ImportsEntry<'a> {
    /// e.g. `Task` or `Task.{ Task, after }`
    Module(ModuleName<'a>, ExposedValues<'a>),
    /// e.g. `base.Task` or `base.Task.{ after }`
    Package(&'a str, ModuleName<'a>, ExposedValues<'a>),
}

pub enum ImportsEntryView {
    Module(Seq<char>, NamesView),
    Package(Seq<char>, Seq<char>, NamesView),
}

impl<'a> View for ImportsEntry<'a> {
    type V = ImportsEntryView;

    open spec fn view(&self) -> ImportsEntryView {
        match self {
            ImportsEntry::Module(name, values) => ImportsEntryView::Module(name@, values@),
            ImportsEntry::Package(package, name, values) => ImportsEntryView::Package(
                package@,
                name@,
                values@,
            ),
        }
    }
}

/// What an app is provided to.
#[derive(Debug, Clone, Copy, PartialEq)]
pub enum To<'a, P> {
    ExistingPackage(&'a str),
    NewPackage(P),
}

pub enum ToView<P> {
    ExistingPackage(Seq<char>),
    NewPackage(P),
}

impl<'a, P: View> View for To<'a, P> {
    type V = ToView<P::V>;

    open spec fn view(&self) -> ToView<P::V> {
        match self {
            To::ExistingPackage(name) => ToView::ExistingPackage(name@),
            To::NewPackage(package) => ToView::NewPackage(package@),
        }
    }
}

/// A name with its type, e.g. `printLine : Str -> Effect {}`.
#[derive(Debug, Clone, Copy, PartialEq)]
pub struct TypedIdent<'a, T> {
    pub ident: Located<&'a str>,
    pub spaces_before_colon: Spaces<'a>,
    pub ann: Located<Spaced<'a, T>>,
}

pub struct TypedIdentView<T> {
    pub ident: Located<Seq<char>>,
    pub spaces_before_colon: SpacesView,
    pub ann: Located<SpacedView<T>>,
}

impl<'a, T: View> View for TypedIdent<'a, T> {
    type V = TypedIdentView<T::V>;

    open spec fn view(&self) -> TypedIdentView<T::V> {
        TypedIdentView {
            ident: self.ident@,
            spaces_before_colon: self.spaces_before_colon@,
            ann: self.ann@,
        }
    }
}

/// A list of names with their types.
pub type TypedIdents<'a, T> = List<'a, Located<Spaced<'a, TypedIdent<'a, T>>>>;

pub type TypedIdentsView<T> = Seq<Located<SpacedView<TypedIdentView<T>>>>;

/// The `effects` of a platform.
#[derive(Debug, Clone, Copy, PartialEq)]
pub struct Effects<'a, T> {
    pub spaces_before_effects_keyword: Spaces<'a>,
    pub spaces_after_effects_keyword: Spaces<'a>,
    pub spaces_after_type_name: Spaces<'a>,
    pub effect_shortname: &'a str,
    pub effect_type_name: &'a str,
    pub entries: TypedIdents<'a, T>,
}

pub struct EffectsView<T> {
    pub spaces_before_effects_keyword: SpacesView,
    pub spaces_after_effects_keyword: SpacesView,
    pub spaces_after_type_name: SpacesView,
    pub effect_shortname: Seq<char>,
    pub effect_type_name: Seq<char>,
    pub entries: TypedIdentsView<T>,
}

impl<'a, T: View> View for Effects<'a, T> {
    type V = EffectsView<T::V>;

    open spec fn view(&self) -> EffectsView<T::V> {
        EffectsView {
            spaces_before_effects_keyword: self.spaces_before_effects_keyword@,
            spaces_after_effects_keyword: self.spaces_after_effects_keyword@,
            spaces_after_type_name: self.spaces_after_type_name@,
            effect_shortname: self.effect_shortname@,
            effect_type_name: self.effect_type_name@,
            entries: self.entries@,
        }
    }
}

/// The `packages` of an app or a platform.
#[derive(Debug, Clone, Copy, PartialEq)]
pub struct Packages<'a, E> {
    pub entries: List<'a, Located<Spaced<'a, E>>>,
    pub before_packages_keyword: Spaces<'a>,
    pub after_packages_keyword: Spaces<'a>,
}

pub struct PackagesView<E> {
    pub entries: Seq<Located<SpacedView<E>>>,
    pub before_packages_keyword: SpacesView,
    pub after_packages_keyword: SpacesView,
}

impl<'a, E: View> View for Packages<'a, E> {
    type V = PackagesView<E::V>;

    open spec fn view(&self) -> PackagesView<E::V> {
        PackagesView {
            entries: self.entries@,
            before_packages_keyword: self.before_packages_keyword@,
            after_packages_keyword: self.after_packages_keyword@,
        }
    }
}

/// What an app provides, and to what.
#[derive(Debug, Clone, Copy, PartialEq)]
pub struct ProvidesTo<'a, P> {
    pub entries: ExposedValues<'a>,
    pub to: Located<To<'a, P>>,
    pub before_provides_keyword: Spaces<'a>,
    pub after_provides_keyword: Spaces<'a>,
    pub before_to_keyword: Spaces<'a>,
    pub after_to_keyword: Spaces<'a>,
}

pub struct ProvidesToView<P> {
    pub entries: NamesView,
    pub to: Located<ToView<P>>,
    pub before_provides_keyword: SpacesView,
    pub after_provides_keyword: SpacesView,
    pub before_to_keyword: SpacesView,
    pub after_to_keyword: SpacesView,
}

impl<'a, P: View> View for ProvidesTo<'a, P> {
    type V = ProvidesToView<P::V>;

    open spec fn view(&self) -> ProvidesToView<P::V> {
        ProvidesToView {
            entries: self.entries@,
            to: self.to@,
            before_provides_keyword: self.before_provides_keyword@,
            after_provides_keyword: self.after_provides_keyword@,
            before_to_keyword: self.before_to_keyword@,
            after_to_keyword: self.after_to_keyword@,
        }
    }
}

/// The header of an interface module.
#[derive(Debug, Clone, Copy, PartialEq)]
pub struct InterfaceHeader<'a> {
    pub name: Located<ModuleName<'a>>,
    pub exposes: ExposedValues<'a>,
    pub imports: List<'a, Located<Spaced<'a, ImportsEntry<'a>>>>,
    pub after_interface_keyword: Spaces<'a>,
    pub before_exposes: Spaces<'a>,
    pub after_exposes: Spaces<'a>,
    pub before_imports: Spaces<'a>,
    pub after_imports: Spaces<'a>,
}

pub struct InterfaceHeaderView {
    pub name: Located<Seq<char>>,
    pub exposes: NamesView,
    pub imports: Seq<Located<SpacedView<ImportsEntryView>>>,
    pub after_interface_keyword: SpacesView,
    pub before_exposes: SpacesView,
    pub after_exposes: SpacesView,
    pub before_imports: SpacesView,
    pub after_imports: SpacesView,
}

impl<'a> View for InterfaceHeader<'a> {
    type V = InterfaceHeaderView;

    open spec fn view(&self) -> InterfaceHeaderView {
        InterfaceHeaderView {
            name: self.name@,
            exposes: self.exposes@,
            imports: self.imports@,
            after_interface_keyword: self.after_interface_keyword@,
            before_exposes: self.before_exposes@,
            after_exposes: self.after_exposes@,
            before_imports: self.before_imports@,
            after_imports: self.after_imports@,
        }
    }
}

/// The header of an app module.
#[derive(Debug, Clone, Copy, PartialEq)]
pub struct AppHeader<'a, S, E, P> {
    pub name: Located<S>,
    pub packages: List<'a, Located<Spaced<'a, E>>>,
    pub imports: List<'a, Located<Spaced<'a, ImportsEntry<'a>>>>,
    pub provides: ExposedValues<'a>,
    pub to: Located<To<'a, P>>,
    pub after_app_keyword: Spaces<'a>,
    pub before_packages: Spaces<'a>,
    pub after_packages: Spaces<'a>,
    pub before_imports: Spaces<'a>,
    pub after_imports: Spaces<'a>,
    pub before_provides: Spaces<'a>,
    pub after_provides: Spaces<'a>,
    pub before_to: Spaces<'a>,
    pub after_to: Spaces<'a>,
}

pub struct AppHeaderView<S, E, P> {
    pub name: Located<S>,
    pub packages: Seq<Located<SpacedView<E>>>,
    pub imports: Seq<Located<SpacedView<ImportsEntryView>>>,
    pub provides: NamesView,
    pub to: Located<ToView<P>>,
    pub after_app_keyword: SpacesView,
    pub before_packages: SpacesView,
    pub after_packages: SpacesView,
    pub before_imports: SpacesView,
    pub after_imports: SpacesView,
    pub before_provides: SpacesView,
    pub after_provides: SpacesView,
    pub before_to: SpacesView,
    pub after_to: SpacesView,
}

impl<'a, S: View, E: View, P: View> View for AppHeader<'a, S, E, P> {
    type V = AppHeaderView<S::V, E::V, P::V>;

    open spec fn view(&self) -> AppHeaderView<S::V, E::V, P::V> {
        AppHeaderView {
            name: self.name@,
            packages: self.packages@,
            imports: self.imports@,
            provides: self.provides@,
            to: self.to@,
            after_app_keyword: self.after_app_keyword@,
            before_packages: self.before_packages@,
            after_packages: self.after_packages@,
            before_imports: self.before_imports@,
            after_imports: self.after_imports@,
            before_provides: self.before_provides@,
            after_provides: self.after_provides@,
            before_to: self.before_to@,
            after_to: self.after_to@,
        }
    }
}

/// The header of a platform module.
#[derive(Debug, Clone, Copy, PartialEq)]
pub struct PlatformHeader<'a, N, E, T> {
    pub name: Located<N>,
    pub requires: TypedIdents<'a, T>,
    pub exposes: List<'a, Located<ExposesEntry<'a, ModuleName<'a>>>>,
    pub packages: List<'a, Located<Spaced<'a, E>>>,
    pub imports: List<'a, Located<Spaced<'a, ImportsEntry<'a>>>>,
    pub provides: ExposedValues<'a>,
    pub effects: Effects<'a, T>,
    pub after_platform_keyword: Spaces<'a>,
    pub before_requires: Spaces<'a>,
    pub after_requires: Spaces<'a>,
    pub before_exposes: Spaces<'a>,
    pub after_exposes: Spaces<'a>,
    pub before_packages: Spaces<'a>,
    pub after_packages: Spaces<'a>,
    pub before_imports: Spaces<'a>,
    pub after_imports: Spaces<'a>,
    pub before_provides: Spaces<'a>,
    pub after_provides: Spaces<'a>,
}

pub struct PlatformHeaderView<N, E, T> {
    pub name: Located<N>,
    pub requires: TypedIdentsView<T>,
    pub exposes: NamesView,
    pub packages: Seq<Located<SpacedView<E>>>,
    pub imports: Seq<Located<SpacedView<ImportsEntryView>>>,
    pub provides: NamesView,
    pub effects: EffectsView<T>,
    pub after_platform_keyword: SpacesView,
    pub before_requires: SpacesView,
    pub after_requires: SpacesView,
    pub before_exposes: SpacesView,
    pub after_exposes: SpacesView,
    pub before_packages: SpacesView,
    pub after_packages: SpacesView,
    pub before_imports: SpacesView,
    pub after_imports: SpacesView,
    pub before_provides: SpacesView,
    pub after_provides: SpacesView,
}

impl<'a, N: View, E: View, T: View> View for PlatformHeader<'a, N, E, T> {
    type V = PlatformHeaderView<N::V, E::V, T::V>;

    open spec fn view(&self) -> PlatformHeaderView<N::V, E::V, T::V> {
        PlatformHeaderView {
            name: self.name@,
            requires: self.requires@,
            exposes: self.exposes@,
            packages: self.packages@,
            imports: self.imports@,
            provides: self.provides@,
            effects: self.effects@,
            after_platform_keyword: self.after_platform_keyword@,
            before_requires: self.before_requires@,
            after_requires: self.after_requires@,
            before_exposes: self.before_exposes@,
            after_exposes: self.after_exposes@,
            before_packages: self.before_packages@,
            after_packages: self.after_packages@,
            before_imports: self.before_imports@,
            after_imports: self.after_imports@,
            before_provides: self.before_provides@,
            after_provides: self.after_provides@,
        }
    }
}

/// A module, by its header.
#[allow(inconsistent_fields)]
#[derive(Debug, Clone, Copy, PartialEq)]
pub enum Module<'a, S, N, E, P, T> {
    Interface { header: InterfaceHeader<'a> },
    App { header: AppHeader<'a, S, E, P> },
    Platform { header: PlatformHeader<'a, N, E, T> },
}

#[allow(inconsistent_fields)]
pub enum ModuleView<S, N, E, P, T> {
    Interface { header: InterfaceHeaderView },
    App { header: AppHeaderView<S, E, P> },
    Platform { header: PlatformHeaderView<N, E, T> },
}

impl<'a, S: View, N: View, E: View, P: View, T: View> View for Module<'a, S, N, E, P, T> {
    type V = ModuleView<S::V, N::V, E::V, P::V, T::V>;

    open spec fn view(&self) -> ModuleView<S::V, N::V, E::V, P::V, T::V> {
        match self {
            Module::Interface { header } => ModuleView::Interface { header: header@ },
            Module::App { header } => ModuleView::App { header: header@ },
            Module::Platform { header } => ModuleView::Platform { header: header@ },
        }
    }
}

} // verus!
