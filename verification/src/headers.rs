//! What whole headers give back: a header that is written from names is parsed to
//! just these names, each in its place.

use crate::ast::{AppHeaderView, InterfaceHeaderView, ModuleView, PlatformHeaderView, ToView};
use crate::blankspace::space0;
use crate::combine::{loc, maybe, Grammar};
use crate::grammar::{
    app_header_help, effects, exposes_modules, header, imports, interface_header_help, packages,
    platform_header_help, provides_to, provides_without_to, requires_section, MIN_INDENT,
};
use crate::ident::Initial;
use crate::laws::{
    law_imports_absent, law_packages_absent, lemma_one_space, reads, refuses, starts_blank,
};
use crate::names::{ends_ident, is_ident, is_module_name, law_module_name_given};
use crate::parts::{law_app_parts, law_header_parts, law_platform_parts, lemma_word_widths};
use crate::region::Located;
use crate::state::{MadeProgress, StateView};
use crate::texts::{all_taken, holds, lemma_skip_twice, list_text};
use crate::written::{
    are_imports, are_typed, effects_text, encoded, import_texts, imports_named, law_effects_written,
    law_exposes_modules_written, law_exposes_values_written, law_imports_written,
    law_packages_written, law_provides_to_written, law_provides_written, law_requires_written,
    lemma_ends_name, lemma_first_byte, lemma_text_not_blank, lists, provides_to_text, section_text,
    typed_texts, types_taken, WrittenImport,
};
use vstd::prelude::*;
use vstd::utf8::encode_utf8;

verus! {

/// An `exposes` list of values, as it is written.
pub open spec fn exposes_text(names: Seq<Seq<char>>) -> Seq<u8> {
    section_text("exposes"@, list_text(0x5b, encoded(names), 0x5d))
}

/// An `imports` list, as it is written.
pub open spec fn imports_text(written: Seq<WrittenImport>) -> Seq<u8> {
    section_text("imports"@, list_text(0x5b, import_texts(written), 0x5d))
}

/// A `packages` list, as it is written.
pub open spec fn packages_text(texts: Seq<Seq<u8>>) -> Seq<u8> {
    section_text("packages"@, list_text(0x7b, texts, 0x7d))
}

/// A `provides` list, as it is written.
pub open spec fn provides_text(names: Seq<Seq<char>>) -> Seq<u8> {
    section_text("provides"@, list_text(0x5b, encoded(names), 0x5d))
}

/// A `requires` list, as it is written.
pub open spec fn requires_text(texts: Seq<Seq<u8>>) -> Seq<u8> {
    section_text("requires"@, list_text(0x7b, texts, 0x7d))
}

/// Whether some names are identifiers.
pub open spec fn all_idents(names: Seq<Seq<char>>) -> bool {
    forall|i: int| 0 <= i < names.len() ==> is_ident(Initial::Alphabetic, #[trigger] names[i])
}

/// Whether some names are module names.
pub open spec fn all_module_names(names: Seq<Seq<char>>) -> bool {
    forall|i: int| 0 <= i < names.len() ==> is_module_name(#[trigger] names[i])
}

/// A header of an interface, as it is written behind its first word.
pub open spec fn interface_text(
    name: Seq<char>,
    exposed: Seq<Seq<char>>,
    imported: Seq<WrittenImport>,
) -> Seq<u8> {
    seq![0x20u8] + (encode_utf8(name) + (exposes_text(exposed) + imports_text(imported)))
}

/// Whether a header of an interface has just this name, exposes just these values
/// and imports just these modules.
pub open spec fn is_interface(
    header: InterfaceHeaderView,
    name: Seq<char>,
    exposed: Seq<Seq<char>>,
    imported: Seq<WrittenImport>,
) -> bool {
    &&& header.name.value == name
    &&& header.name.region.start_line == header.name.region.end_line
    &&& header.name.region.end_col - header.name.region.start_col == encode_utf8(name).len()
    &&& lists(header.exposes, exposed)
    &&& holds(header.imports, import_texts(imported), are_imports(imported))
    &&& header.after_interface_keyword.len() == 0
    &&& header.before_exposes.len() == 0
    &&& header.after_exposes.len() == 0
    &&& header.before_imports.len() == 0
    &&& header.after_imports.len() == 0
}

/// e.g. ` Foo exposes [ map, after, fail ] imports [ Json.Decode ]`: the header of
/// an interface has the name, the exposed values and the imports that stand there.
pub proof fn law_interface_written<S, T>(
    name: Seq<char>,
    exposed: Seq<Seq<char>>,
    imported: Seq<WrittenImport>,
    rest: Seq<u8>,
    s: StateView,
)
    requires
        is_module_name(name),
        all_idents(exposed),
        imports_named(imported),
        s.bytes == interface_text(name, exposed, imported) + rest,
        s.has_room(interface_text(name, exposed, imported).len() as int),
    ensures
        interface_header_help::<S, T>()(s) matches Ok((MadeProgress, header, end)) && is_interface(
            header,
            name,
            exposed,
            imported,
        ) && end == s.skip(interface_text(name, exposed, imported).len() as int) && end.bytes
            == rest,
{
    reveal(interface_header_help);
    let word = encode_utf8(name);
    let list1 = exposes_text(exposed);
    let list2 = imports_text(imported);
    let total = interface_text(name, exposed, imported).len() as int;
    let w1 = 1 + word.len() as int;
    let w2 = w1 + list1.len() as int;
    assert(s.bytes =~= seq![0x20u8] + (word + (list1 + (list2 + rest))));
    lemma_text_not_blank(name);
    lemma_first_byte(name);
    let s1 = s.skip(1);
    assert(s1.bytes =~= word + (list1 + (list2 + rest)));
    assert(s1.bytes[0] == word[0]);
    lemma_one_space(MIN_INDENT, s);
    assert((list1 + (list2 + rest))[0] == 0x20);
    lemma_ends_name(list1 + (list2 + rest));
    law_module_name_given(name, list1 + (list2 + rest), s1);
    let s2 = s.skip(w1);
    lemma_skip_twice(s, 1, word.len() as int);
    assert(s2.bytes =~= list1 + (list2 + rest));
    law_exposes_values_written(exposed, list2 + rest, s2);
    let s3 = s.skip(w2);
    lemma_skip_twice(s, w1, list1.len() as int);
    assert(s3.bytes =~= list2 + rest);
    law_imports_written(imported, rest, s3);
    lemma_skip_twice(s, w2, list2.len() as int);
    assert(s.bytes.skip(total) =~= rest);
}

/// A header of a platform, as it is written.
#[verifier::reject_recursive_types(E)]
#[verifier::reject_recursive_types(T)]
pub struct WrittenPlatform<N, E, T> {
    /// The text of its name, and that name.
    pub name: Seq<u8>,
    pub named: N,
    /// What it requires: the names, the texts of their types, and what holds of
    /// those types.
    pub required: Seq<Seq<char>>,
    pub required_types: Seq<Seq<u8>>,
    pub required_facts: Seq<spec_fn(T) -> bool>,
    pub exposed: Seq<Seq<char>>,
    /// The texts of its packages, and what holds of those packages.
    pub packages: Seq<Seq<u8>>,
    pub package_facts: Seq<spec_fn(E) -> bool>,
    pub imported: Seq<WrittenImport>,
    pub provided: Seq<Seq<char>>,
    /// The effect type, its effects, the texts of their types, and what holds of
    /// those types.
    pub shortname: Seq<char>,
    pub effect_type: Seq<char>,
    pub effects: Seq<Seq<char>>,
    pub effect_types: Seq<Seq<u8>>,
    pub effect_facts: Seq<spec_fn(T) -> bool>,
}

impl<N, E, T> WrittenPlatform<N, E, T> {
    pub open spec fn effects_text(self) -> Seq<u8> {
        effects_text(
            self.shortname,
            self.effect_type,
            typed_texts(self.effects, self.effect_types),
        )
    }

    /// What stands between its name and its imports.
    pub open spec fn front_text(self) -> Seq<u8> {
        requires_text(typed_texts(self.required, self.required_types)) + (exposes_text(
            self.exposed,
        ) + packages_text(self.packages))
    }

    /// What stands behind its packages.
    pub open spec fn back_text(self) -> Seq<u8> {
        imports_text(self.imported) + (provides_text(self.provided) + self.effects_text())
    }

    /// The whole header, behind its first word.
    pub open spec fn text(self) -> Seq<u8> {
        seq![0x20u8] + (self.name + (self.front_text() + self.back_text()))
    }

    /// Whether every part is a text of its kind.
    pub open spec fn is_good<XN, XE, XT>(
        self,
        package_name: Grammar<N, XN>,
        package_entry: Grammar<E, XE>,
        type_annotation: Grammar<Located<T>, XT>,
    ) -> bool {
        &&& reads(package_name, self.name, self.named)
        &&& self.name.len() > 0
        &&& !starts_blank(self.name)
        &&& types_taken(
            type_annotation,
            self.required,
            self.required_types,
            self.required_facts,
        )
        &&& all_module_names(self.exposed)
        &&& all_taken(loc(package_entry), self.packages, self.package_facts)
        &&& refuses(loc(package_entry), 0x7d)
        &&& imports_named(self.imported)
        &&& all_idents(self.provided)
        &&& is_ident(Initial::Lowercase, self.shortname)
        &&& is_ident(Initial::Uppercase, self.effect_type)
        &&& types_taken(type_annotation, self.effects, self.effect_types, self.effect_facts)
    }

    /// Whether a header has just these parts.
    pub open spec fn is(self, header: PlatformHeaderView<N, E, T>) -> bool {
        &&& header.name.value == self.named
        &&& header.name.region.start_line == header.name.region.end_line
        &&& header.name.region.end_col - header.name.region.start_col == self.name.len()
        &&& holds(
            header.requires,
            typed_texts(self.required, self.required_types),
            are_typed(self.required, self.required_facts),
        )
        &&& lists(header.exposes, self.exposed)
        &&& holds(header.packages, self.packages, self.package_facts)
        &&& holds(header.imports, import_texts(self.imported), are_imports(self.imported))
        &&& lists(header.provides, self.provided)
        &&& header.effects.effect_shortname == self.shortname
        &&& header.effects.effect_type_name == self.effect_type
        &&& holds(
            header.effects.entries,
            typed_texts(self.effects, self.effect_types),
            are_typed(self.effects, self.effect_facts),
        )
        &&& header.effects.spaces_before_effects_keyword.len() == 0
        &&& header.effects.spaces_after_effects_keyword.len() == 0
        &&& header.effects.spaces_after_type_name.len() == 0
        &&& header.after_platform_keyword.len() == 0
        &&& header.before_requires.len() == 0
        &&& header.after_requires.len() == 0
        &&& header.before_exposes.len() == 0
        &&& header.after_exposes.len() == 0
        &&& header.before_packages.len() == 0
        &&& header.after_packages.len() == 0
        &&& header.before_imports.len() == 0
        &&& header.after_imports.len() == 0
        &&& header.before_provides.len() == 0
        &&& header.after_provides.len() == 0
    }
}

/// A name behind a space, wherever it is read.
proof fn lemma_name_given<A, X>(
    name: Grammar<A, X>,
    text: Seq<u8>,
    value: A,
    rest: Seq<u8>,
    s: StateView,
)
    requires
        reads(name, text, value),
        text.len() > 0,
        !starts_blank(text),
        s.bytes == seq![0x20u8] + (text + rest),
        s.has_room(1 + text.len() as int),
    ensures
        ({
            let s1 = s.skip(1);
            &&& space0(MIN_INDENT)(s) matches Ok((_, spaces, end))
            &&& spaces.len() == 0
            &&& end == s1
            &&& name(s1) matches Ok((_, a, end1))
            &&& a == value
            &&& end1 == s.skip(1 + text.len() as int)
            &&& end1.bytes == rest
        }),
{
    let s1 = s.skip(1);
    assert(s1.bytes =~= text + rest);
    assert(s1.bytes[0] == text[0]);
    lemma_one_space(MIN_INDENT, s);
    assert(text.is_prefix_of(s1.bytes)) by {
        assert(s1.bytes.subrange(0, text.len() as int) =~= text);
    }
    lemma_skip_twice(s, 1, text.len() as int);
    assert(name(s1) matches Ok((_, a, end1)) && a == value && end1 == s1.skip(text.len() as int));
    assert(s.bytes.skip(1 + text.len() as int) =~= rest);
}

/// What a platform exposes and lists, where it is written so.
proof fn lemma_platform_front_given<N, E, XE, T, XT>(
    package_entry: Grammar<E, XE>,
    type_annotation: Grammar<Located<T>, XT>,
    w: WrittenPlatform<N, E, T>,
    tail: Seq<u8>,
    s: StateView,
)
    requires
        types_taken(type_annotation, w.required, w.required_types, w.required_facts),
        all_module_names(w.exposed),
        all_taken(loc(package_entry), w.packages, w.package_facts),
        refuses(loc(package_entry), 0x7d),
        s.bytes == w.front_text() + tail,
        s.has_room(w.front_text().len() as int),
    ensures
        requires_section(type_annotation)(s) matches Ok((_, required, s1))
            && exposes_modules()(s1) matches Ok((_, exposed, s2))
            && packages(package_entry)(s2) matches Ok((_, listed, s3)) && {
            &&& holds(
                required.1,
                typed_texts(w.required, w.required_types),
                are_typed(w.required, w.required_facts),
            )
            &&& required.0.0.len() == 0
            &&& required.0.1.len() == 0
            &&& lists(exposed.1, w.exposed)
            &&& exposed.0.0.len() == 0
            &&& exposed.0.1.len() == 0
            &&& holds(listed.entries, w.packages, w.package_facts)
            &&& listed.before_packages_keyword.len() == 0
            &&& listed.after_packages_keyword.len() == 0
            &&& s3 == s.skip(w.front_text().len() as int)
        },
{
    let t1 = requires_text(typed_texts(w.required, w.required_types));
    let t2 = exposes_text(w.exposed);
    let t3 = packages_text(w.packages);
    let w1 = t1.len() as int;
    let w2 = w1 + t2.len() as int;
    assert(w.front_text().len() == w2 + t3.len());
    assert(s.bytes =~= t1 + (t2 + (t3 + tail)));
    law_requires_written(
        type_annotation,
        w.required,
        w.required_types,
        w.required_facts,
        t2 + (t3 + tail),
        s,
    );
    law_exposes_modules_written(w.exposed, t3 + tail, s.skip(w1));
    lemma_skip_twice(s, w1, t2.len() as int);
    law_packages_written(package_entry, w.packages, w.package_facts, tail, s.skip(w2));
    lemma_skip_twice(s, w2, t3.len() as int);
}

/// What a platform imports, provides and offers as effects, where it is written so.
proof fn lemma_platform_back_given<N, E, T, XT>(
    type_annotation: Grammar<Located<T>, XT>,
    w: WrittenPlatform<N, E, T>,
    rest: Seq<u8>,
    s: StateView,
)
    requires
        imports_named(w.imported),
        all_idents(w.provided),
        is_ident(Initial::Lowercase, w.shortname),
        is_ident(Initial::Uppercase, w.effect_type),
        types_taken(type_annotation, w.effects, w.effect_types, w.effect_facts),
        s.bytes == w.back_text() + rest,
        s.has_room(w.back_text().len() as int),
    ensures
        imports()(s) matches Ok((_, imported, s1)) && provides_without_to()(s1) matches Ok(
            (_, provided, s2),
        ) && effects(type_annotation)(s2) matches Ok((_, offered, s3)) && {
            &&& holds(imported.1, import_texts(w.imported), are_imports(w.imported))
            &&& imported.0.0.len() == 0
            &&& imported.0.1.len() == 0
            &&& lists(provided.1, w.provided)
            &&& provided.0.0.len() == 0
            &&& provided.0.1.len() == 0
            &&& offered.effect_shortname == w.shortname
            &&& offered.effect_type_name == w.effect_type
            &&& holds(
                offered.entries,
                typed_texts(w.effects, w.effect_types),
                are_typed(w.effects, w.effect_facts),
            )
            &&& offered.spaces_before_effects_keyword.len() == 0
            &&& offered.spaces_after_effects_keyword.len() == 0
            &&& offered.spaces_after_type_name.len() == 0
            &&& s3 == s.skip(w.back_text().len() as int)
            &&& s3.bytes == rest
        },
{
    let t1 = imports_text(w.imported);
    let t2 = provides_text(w.provided);
    let t3 = w.effects_text();
    let w1 = t1.len() as int;
    let w2 = w1 + t2.len() as int;
    assert(w.back_text().len() == w2 + t3.len());
    assert(s.bytes =~= t1 + (t2 + (t3 + rest)));
    law_imports_written(w.imported, t2 + (t3 + rest), s);
    law_provides_written(w.provided, t3 + rest, s.skip(w1));
    lemma_skip_twice(s, w1, t2.len() as int);
    law_effects_written(
        type_annotation,
        w.shortname,
        w.effect_type,
        w.effects,
        w.effect_types,
        w.effect_facts,
        rest,
        s.skip(w2),
    );
    lemma_skip_twice(s, w2, t3.len() as int);
}

/// e.g. ` fox/base requires { main : Task } exposes [ Task ] packages { .. }
/// imports [ .. ] provides [ mainForHost ] effects fx.Effect { putLine : Str }`: the
/// header of a platform has just the parts that stand there.
pub proof fn law_platform_written<N, XN, E, XE, T, XT, S>(
    package_name: Grammar<N, XN>,
    package_entry: Grammar<E, XE>,
    type_annotation: Grammar<Located<T>, XT>,
    w: WrittenPlatform<N, E, T>,
    rest: Seq<u8>,
    s: StateView,
)
    requires
        w.is_good(package_name, package_entry, type_annotation),
        s.bytes == w.text() + rest,
        s.has_room(w.text().len() as int),
    ensures
        platform_header_help::<N, XN, E, XE, T, XT, S>(
            package_name,
            package_entry,
            type_annotation,
        )(s) matches Ok((MadeProgress, header, end)) && w.is(header) && end == s.skip(
            w.text().len() as int,
        ) && end.bytes == rest,
{
    let t1 = w.front_text();
    let t2 = w.back_text();
    let w1 = 1 + w.name.len() as int;
    let w2 = w1 + t1.len() as int;
    assert(w.text().len() == w2 + t2.len());
    assert(s.bytes =~= seq![0x20u8] + (w.name + (t1 + (t2 + rest))));
    lemma_name_given(package_name, w.name, w.named, t1 + (t2 + rest), s);
    lemma_platform_front_given(package_entry, type_annotation, w, t2 + rest, s.skip(w1));
    lemma_skip_twice(s, w1, t1.len() as int);
    assert(s.skip(w2).bytes =~= t2 + rest);
    lemma_platform_back_given(type_annotation, w, rest, s.skip(w2));
    lemma_skip_twice(s, w2, t2.len() as int);
    law_platform_parts::<N, XN, E, XE, T, XT, S>(package_name, package_entry, type_annotation, s);
}

/// A header of an app, as it is written. It may leave out its packages and its
/// imports.
#[verifier::reject_recursive_types(E)]
pub struct WrittenApp<S, E> {
    /// The text of its name, and that name.
    pub name: Seq<u8>,
    pub named: S,
    /// The texts of its packages, and what holds of those packages.
    pub packages: Option<(Seq<Seq<u8>>, Seq<spec_fn(E) -> bool>)>,
    pub imported: Option<Seq<WrittenImport>>,
    pub provided: Seq<Seq<char>>,
    /// The package that the app is provided to.
    pub to: Seq<char>,
}

impl<S, E> WrittenApp<S, E> {
    pub open spec fn packages_text(self) -> Seq<u8> {
        match self.packages {
            Some((texts, _)) => packages_text(texts),
            None => Seq::empty(),
        }
    }

    pub open spec fn imports_text(self) -> Seq<u8> {
        match self.imported {
            Some(imported) => imports_text(imported),
            None => Seq::empty(),
        }
    }

    /// What stands behind its name.
    pub open spec fn sections_text(self) -> Seq<u8> {
        self.packages_text() + (self.imports_text() + provides_to_text(
            self.provided,
            encode_utf8(self.to),
        ))
    }

    /// The whole header, behind its first word.
    pub open spec fn text(self) -> Seq<u8> {
        seq![0x20u8] + (self.name + self.sections_text())
    }

    /// Whether every part is a text of its kind.
    pub open spec fn is_good<XS, XE>(
        self,
        string_literal: Grammar<S, XS>,
        package_entry: Grammar<E, XE>,
    ) -> bool {
        &&& reads(string_literal, self.name, self.named)
        &&& self.name.len() > 0
        &&& !starts_blank(self.name)
        &&& self.packages matches Some((texts, facts)) ==> all_taken(
            loc(package_entry),
            texts,
            facts,
        ) && refuses(loc(package_entry), 0x7d)
        &&& self.imported matches Some(imported) ==> imports_named(imported)
        &&& all_idents(self.provided)
        &&& is_ident(Initial::Lowercase, self.to)
    }

    /// Whether a header has just these parts.
    pub open spec fn is<P>(self, header: AppHeaderView<S, E, P>) -> bool {
        &&& header.name.value == self.named
        &&& header.name.region.start_line == header.name.region.end_line
        &&& header.name.region.end_col - header.name.region.start_col == self.name.len()
        &&& match self.packages {
            Some((texts, facts)) => holds(header.packages, texts, facts),
            None => header.packages.len() == 0,
        }
        &&& match self.imported {
            Some(imported) => holds(
                header.imports,
                import_texts(imported),
                are_imports(imported),
            ),
            None => header.imports.len() == 0,
        }
        &&& lists(header.provides, self.provided)
        &&& header.to.value == ToView::<P>::ExistingPackage(self.to)
        &&& header.after_app_keyword.len() == 0
        &&& header.before_packages.len() == 0
        &&& header.after_packages.len() == 0
        &&& header.before_imports.len() == 0
        &&& header.after_imports.len() == 0
        &&& header.before_provides.len() == 0
        &&& header.after_provides.len() == 0
        &&& header.before_to.len() == 0
        &&& header.after_to.len() == 0
    }
}

/// The packages of an app, where it lists any.
#[verifier::rlimit(40)]
proof fn lemma_app_packages_given<S, E, XE>(
    package_entry: Grammar<E, XE>,
    w: WrittenApp<S, E>,
    tail: Seq<u8>,
    s: StateView,
)
    requires
        w.packages matches Some((texts, facts)) ==> all_taken(loc(package_entry), texts, facts)
            && refuses(loc(package_entry), 0x7d),
        s.bytes == w.packages_text() + (w.imports_text() + (provides_to_text(
            w.provided,
            encode_utf8(w.to),
        ) + tail)),
        s.has_room(w.packages_text().len() as int),
    ensures
        maybe(packages(package_entry))(s) matches Ok((_, found, end)) && end == s.skip(
            w.packages_text().len() as int,
        ) && match (w.packages, found) {
            (Some((texts, facts)), Some(found)) => {
                &&& holds(found.entries, texts, facts)
                &&& found.before_packages_keyword.len() == 0
                &&& found.after_packages_keyword.len() == 0
            },
            (None, None) => true,
            _ => false,
        },
{
    let behind = w.imports_text() + (provides_to_text(w.provided, encode_utf8(w.to)) + tail);
    match w.packages {
        Some((texts, facts)) => {
            law_packages_written(package_entry, texts, facts, behind, s);
        },
        None => {
            assert(s.bytes =~= behind);
            assert(s.bytes.skip(0) =~= s.bytes);
            let word = if w.imported is Some {
                "imports"@
            } else {
                "provides"@
            };
            let rest = s.bytes.skip(1 + encode_utf8(word).len() as int);
            assert(s.bytes =~= seq![0x20u8] + (encode_utf8(word) + rest));
            law_packages_absent(package_entry, word, rest, s);
        },
    }
}

/// The imports of an app, where it lists any.
proof fn lemma_app_imports_given<S, E>(w: WrittenApp<S, E>, tail: Seq<u8>, s: StateView)
    requires
        w.imported matches Some(imported) ==> imports_named(imported),
        s.bytes == w.imports_text() + (provides_to_text(w.provided, encode_utf8(w.to)) + tail),
        s.has_room(w.imports_text().len() as int),
    ensures
        maybe(imports())(s) matches Ok((_, found, end)) && end == s.skip(
            w.imports_text().len() as int,
        ) && match (w.imported, found) {
            (Some(imported), Some(found)) => {
                &&& holds(found.1, import_texts(imported), are_imports(imported))
                &&& found.0.0.len() == 0
                &&& found.0.1.len() == 0
            },
            (None, None) => true,
            _ => false,
        },
{
    let behind = provides_to_text(w.provided, encode_utf8(w.to)) + tail;
    match w.imported {
        Some(imported) => {
            law_imports_written(imported, behind, s);
        },
        None => {
            assert(s.bytes =~= behind);
            assert(s.bytes.skip(0) =~= s.bytes);
            let rest = s.bytes.skip(1 + encode_utf8("provides"@).len() as int);
            assert(s.bytes =~= seq![0x20u8] + (encode_utf8("provides"@) + rest));
            law_imports_absent(rest, s);
        },
    }
}

/// The sections of an app, where it is written so.
proof fn lemma_app_sections_given<S, E, XE, P, XP>(
    package_entry: Grammar<E, XE>,
    package_or_path: Grammar<P, XP>,
    w: WrittenApp<S, E>,
    rest: Seq<u8>,
    s: StateView,
)
    requires
        w.packages matches Some((texts, facts)) ==> all_taken(loc(package_entry), texts, facts)
            && refuses(loc(package_entry), 0x7d),
        w.imported matches Some(imported) ==> imports_named(imported),
        all_idents(w.provided),
        is_ident(Initial::Lowercase, w.to),
        ends_ident(rest),
        s.bytes == w.sections_text() + rest,
        s.has_room(w.sections_text().len() as int),
    ensures
        maybe(packages(package_entry))(s) matches Ok((_, listed, s1)) && maybe(imports())(
            s1,
        ) matches Ok((_, imported, s2)) && provides_to(package_or_path)(s2) matches Ok(
            (_, provided, s3),
        ) && {
            &&& match (w.packages, listed) {
                (Some((texts, facts)), Some(listed)) => {
                    &&& holds(listed.entries, texts, facts)
                    &&& listed.before_packages_keyword.len() == 0
                    &&& listed.after_packages_keyword.len() == 0
                },
                (None, None) => true,
                _ => false,
            }
            &&& match (w.imported, imported) {
                (Some(names), Some(imported)) => {
                    &&& holds(imported.1, import_texts(names), are_imports(names))
                    &&& imported.0.0.len() == 0
                    &&& imported.0.1.len() == 0
                },
                (None, None) => true,
                _ => false,
            }
            &&& lists(provided.entries, w.provided)
            &&& provided.to.value == ToView::<P>::ExistingPackage(w.to)
            &&& provided.before_provides_keyword.len() == 0
            &&& provided.after_provides_keyword.len() == 0
            &&& provided.before_to_keyword.len() == 0
            &&& provided.after_to_keyword.len() == 0
            &&& s3 == s.skip(w.sections_text().len() as int)
            &&& s3.bytes == rest
        },
{
    let t1 = w.packages_text();
    let t2 = w.imports_text();
    let t3 = provides_to_text(w.provided, encode_utf8(w.to));
    let w1 = t1.len() as int;
    let w2 = w1 + t2.len() as int;
    assert(w.sections_text().len() == w2 + t3.len());
    assert(s.bytes =~= t1 + (t2 + (t3 + rest)));
    lemma_app_packages_given(package_entry, w, rest, s);
    assert(s.skip(w1).bytes =~= t2 + (t3 + rest));
    lemma_app_imports_given(w, rest, s.skip(w1));
    lemma_skip_twice(s, w1, t2.len() as int);
    assert(s.skip(w2).bytes =~= t3 + rest);
    law_provides_to_written(package_or_path, w.provided, w.to, rest, s.skip(w2));
    lemma_skip_twice(s, w2, t3.len() as int);
}

/// e.g. ` "hello" packages { .. } imports [ base.Task ] provides [ main, other ] to
/// base`: the header of an app has just the parts that stand there.
pub proof fn law_app_written<S, XS, E, XE, P, XP, T>(
    string_literal: Grammar<S, XS>,
    package_entry: Grammar<E, XE>,
    package_or_path: Grammar<P, XP>,
    w: WrittenApp<S, E>,
    rest: Seq<u8>,
    s: StateView,
)
    requires
        w.is_good(string_literal, package_entry),
        ends_ident(rest),
        s.bytes == w.text() + rest,
        s.has_room(w.text().len() as int),
    ensures
        app_header_help::<S, XS, E, XE, P, XP, T>(string_literal, package_entry, package_or_path)(
            s,
        ) matches Ok((MadeProgress, header, end)) && w.is(header) && end == s.skip(
            w.text().len() as int,
        ) && end.bytes == rest,
{
    let t1 = w.sections_text();
    let w1 = 1 + w.name.len() as int;
    assert(w.text().len() == w1 + t1.len());
    assert(s.bytes =~= seq![0x20u8] + (w.name + (t1 + rest)));
    lemma_name_given(string_literal, w.name, w.named, t1 + rest, s);
    lemma_app_sections_given(package_entry, package_or_path, w, rest, s.skip(w1));
    lemma_skip_twice(s, w1, t1.len() as int);
    law_app_parts::<S, XS, E, XE, P, XP, T>(string_literal, package_entry, package_or_path, s);
}

/// A module whose header is written as that of an app has just that header.
pub proof fn law_app_header_written<S, XS, N, XN, E, XE, P, XP, T, XT>(
    string_literal: Grammar<S, XS>,
    package_name: Grammar<N, XN>,
    package_entry: Grammar<E, XE>,
    package_or_path: Grammar<P, XP>,
    type_annotation: Grammar<Located<T>, XT>,
    w: WrittenApp<S, E>,
    rest: Seq<u8>,
    s: StateView,
)
    requires
        w.is_good(string_literal, package_entry),
        ends_ident(rest),
        s.bytes == encode_utf8("app"@) + (w.text() + rest),
        s.has_room((encode_utf8("app"@) + w.text()).len() as int),
    ensures
        header(string_literal, package_name, package_entry, package_or_path, type_annotation)(
            s,
        ) matches Ok((MadeProgress, ModuleView::App { header }, end)) && w.is(header)
            && end.bytes == rest,
{
    let word = encode_utf8("app"@);
    let width = word.len() as int;
    assert(word.is_prefix_of(s.bytes)) by {
        assert(s.bytes.take(width) =~= word);
    }
    let s1 = s.skip(width);
    assert(s1.bytes =~= w.text() + rest);
    law_app_written::<S, XS, E, XE, P, XP, XT>(
        string_literal,
        package_entry,
        package_or_path,
        w,
        rest,
        s1,
    );
    law_header_parts(
        string_literal,
        package_name,
        package_entry,
        package_or_path,
        type_annotation,
        s,
    );
    lemma_word_widths();
}

/// A module whose header is written as that of a platform has just that header.
pub proof fn law_platform_header_written<S, XS, N, XN, E, XE, P, XP, T, XT>(
    string_literal: Grammar<S, XS>,
    package_name: Grammar<N, XN>,
    package_entry: Grammar<E, XE>,
    package_or_path: Grammar<P, XP>,
    type_annotation: Grammar<Located<T>, XT>,
    w: WrittenPlatform<N, E, T>,
    rest: Seq<u8>,
    s: StateView,
)
    requires
        w.is_good(package_name, package_entry, type_annotation),
        s.bytes == encode_utf8("platform"@) + (w.text() + rest),
        s.has_room((encode_utf8("platform"@) + w.text()).len() as int),
    ensures
        header(string_literal, package_name, package_entry, package_or_path, type_annotation)(
            s,
        ) matches Ok((MadeProgress, ModuleView::Platform { header }, end)) && w.is(header)
            && end.bytes == rest,
{
    let word = encode_utf8("platform"@);
    let width = word.len() as int;
    assert(word.is_prefix_of(s.bytes)) by {
        assert(s.bytes.take(width) =~= word);
    }
    let s1 = s.skip(width);
    assert(s1.bytes =~= w.text() + rest);
    law_platform_written::<N, XN, E, XE, T, XT, XS>(
        package_name,
        package_entry,
        type_annotation,
        w,
        rest,
        s1,
    );
    law_header_parts(
        string_literal,
        package_name,
        package_entry,
        package_or_path,
        type_annotation,
        s,
    );
    lemma_word_widths();
}

/// A module whose header is written as that of an interface has just that header.
pub proof fn law_interface_header_written<S, XS, N, XN, E, XE, P, XP, T, XT>(
    string_literal: Grammar<S, XS>,
    package_name: Grammar<N, XN>,
    package_entry: Grammar<E, XE>,
    package_or_path: Grammar<P, XP>,
    type_annotation: Grammar<Located<T>, XT>,
    name: Seq<char>,
    exposed: Seq<Seq<char>>,
    imported: Seq<WrittenImport>,
    rest: Seq<u8>,
    s: StateView,
)
    requires
        is_module_name(name),
        all_idents(exposed),
        imports_named(imported),
        s.bytes == encode_utf8("interface"@) + (interface_text(name, exposed, imported) + rest),
        s.has_room(
            (encode_utf8("interface"@) + interface_text(name, exposed, imported)).len() as int,
        ),
    ensures
        header(string_literal, package_name, package_entry, package_or_path, type_annotation)(
            s,
        ) matches Ok((MadeProgress, ModuleView::Interface { header }, end)) && is_interface(
            header,
            name,
            exposed,
            imported,
        ) && end.bytes == rest,
{
    let word = encode_utf8("interface"@);
    let width = word.len() as int;
    assert(word.is_prefix_of(s.bytes)) by {
        assert(s.bytes.take(width) =~= word);
    }
    let s1 = s.skip(width);
    assert(s1.bytes =~= interface_text(name, exposed, imported) + rest);
    law_interface_written::<XS, XT>(name, exposed, imported, rest, s1);
    law_header_parts(
        string_literal,
        package_name,
        package_entry,
        package_or_path,
        type_annotation,
        s,
    );
    lemma_word_widths();
}

} // verus!
