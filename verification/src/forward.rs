//! Every production of the grammar only goes forward: it takes bytes off the
//! front of its input, skips none, makes none up, and does not move back.

use crate::blankspace::lemma_forward_space0;
use crate::collection::lemma_forward_collection;
use crate::combine::{
    forward, group_forward, lemma_advances_reflexive, lemma_advances_transitive, Grammar,
};
use crate::grammar::{
    app_header_help, effect_shortname, effect_type_name, effects, exposes_entry, exposes_module,
    exposes_modules, exposes_values, header, imports, imports_entry, interface_header_help,
    module_def, module_defs, module_name, module_name_rest, packages, platform_header_help,
    provides_to, provides_to_package, provides_without_to, requires_section, spaces_around_keyword,
    typed_ident,
};
use crate::ident::{continues_ident, lemma_dot_width, lemma_forward_ident, lemma_peek_width};
use crate::lex::{
    lemma_forward_ascii_string, lemma_forward_end_of_file, lemma_forward_keyword,
    lemma_forward_word1, peek,
};
use crate::region::{Col, Located};
use crate::state::{advances, end_state, StateView};
use crate::unicode::is_uppercase_letter;
use vstd::prelude::*;

verus! {

proof fn lemma_module_name_rest_advances(found: Seq<char>, s: StateView)
    ensures
        advances(s, end_state(module_name_rest(found, s))),
    decreases s.bytes.len(),
{
    lemma_advances_reflexive(s);
    lemma_peek_width(s.bytes);
    if s.bytes.len() > 0 {
        if let Ok((ch, width)) = peek(s.bytes) {
            lemma_peek_width(s.bytes.skip(1));
            if continues_ident(ch) {
                if s.has_room(width) {
                    let s1 = s.skip(width);
                    let rest = module_name_rest(found.push(ch), s1);
                    lemma_module_name_rest_advances(found.push(ch), s1);
                    lemma_advances_transitive(s, s1, end_state(rest));
                }
            } else if ch == '.' {
                if let Ok((next, next_width)) = peek(s.bytes.skip(1)) {
                    lemma_dot_width(s.bytes);
                    if is_uppercase_letter(next) && s.has_room(width + next_width) {
                        let s1 = s.skip(width + next_width);
                        let found1 = found.push('.').push(next);
                        lemma_module_name_rest_advances(found1, s1);
                        lemma_advances_transitive(s, s1, end_state(module_name_rest(found1, s1)));
                    }
                }
            }
        }
    }
}

/// A module name only goes forward.
pub broadcast proof fn lemma_forward_module_name()
    ensures
        #[trigger] forward(module_name()),
{
    reveal(forward);
    assert forall|s: StateView| advances(s, end_state(#[trigger] module_name()(s))) by {
        lemma_advances_reflexive(s);
        lemma_peek_width(s.bytes);
        if let Ok((ch, width)) = peek(s.bytes) {
            if is_uppercase_letter(ch) && s.has_room(width) {
                let s1 = s.skip(width);
                lemma_module_name_rest_advances(seq![ch], s1);
                lemma_advances_transitive(s, s1, end_state(module_name_rest(seq![ch], s1)));
            }
        }
    }
}

/// A keyword between blank space only goes forward.
pub broadcast proof fn lemma_forward_spaces_around_keyword(min_indent: Col, keyword: Seq<char>)
    ensures
        #[trigger] forward(spaces_around_keyword(min_indent, keyword)),
{
    broadcast use {group_forward, lemma_forward_space0, lemma_forward_keyword};

}

/// An exposed value only goes forward.
pub broadcast proof fn lemma_forward_exposes_entry()
    ensures
        #[trigger] forward(exposes_entry()),
{
    broadcast use {group_forward, lemma_forward_ident};

}

/// An exposed module only goes forward.
pub broadcast proof fn lemma_forward_exposes_module()
    ensures
        #[trigger] forward(exposes_module()),
{
    broadcast use {group_forward, lemma_forward_module_name};

}

/// A `provides` list only goes forward.
pub broadcast proof fn lemma_forward_provides_without_to()
    ensures
        #[trigger] forward(provides_without_to()),
{
    reveal(provides_without_to);
    broadcast use {
        group_forward,
        lemma_forward_spaces_around_keyword,
        lemma_forward_collection,
        lemma_forward_exposes_entry,
    };

}

/// What an app is provided to only goes forward.
pub broadcast proof fn lemma_forward_provides_to_package<P, X>(package_or_path: Grammar<P, X>)
    requires
        forward(package_or_path),
    ensures
        #[trigger] forward(provides_to_package(package_or_path)),
{
    broadcast use {group_forward, lemma_forward_ident};

}

/// A `provides` list with what it is provided to only goes forward.
pub broadcast proof fn lemma_forward_provides_to<P, X>(package_or_path: Grammar<P, X>)
    requires
        forward(package_or_path),
    ensures
        #[trigger] forward(provides_to(package_or_path)),
{
    reveal(provides_to);
    broadcast use {
        group_forward,
        lemma_forward_provides_without_to,
        lemma_forward_spaces_around_keyword,
        lemma_forward_provides_to_package,
    };

}

/// A name with its type only goes forward.
pub broadcast proof fn lemma_forward_typed_ident<T, X>(type_annotation: Grammar<Located<T>, X>)
    requires
        forward(type_annotation),
    ensures
        #[trigger] forward(typed_ident(type_annotation)),
{
    broadcast use {group_forward, lemma_forward_ident, lemma_forward_space0, lemma_forward_word1};

}

/// A `requires` list only goes forward.
pub broadcast proof fn lemma_forward_requires_section<T, X>(type_annotation: Grammar<Located<T>, X>)
    requires
        forward(type_annotation),
    ensures
        #[trigger] forward(requires_section(type_annotation)),
{
    reveal(requires_section);
    broadcast use {
        group_forward,
        lemma_forward_spaces_around_keyword,
        lemma_forward_collection,
        lemma_forward_typed_ident,
    };

}

/// A list of exposed values only goes forward.
pub broadcast proof fn lemma_forward_exposes_values()
    ensures
        #[trigger] forward(exposes_values()),
{
    reveal(exposes_values);
    broadcast use {
        group_forward,
        lemma_forward_spaces_around_keyword,
        lemma_forward_collection,
        lemma_forward_exposes_entry,
    };

}

/// A list of exposed modules only goes forward.
pub broadcast proof fn lemma_forward_exposes_modules()
    ensures
        #[trigger] forward(exposes_modules()),
{
    reveal(exposes_modules);
    broadcast use {
        group_forward,
        lemma_forward_spaces_around_keyword,
        lemma_forward_collection,
        lemma_forward_exposes_module,
    };

}

/// A `packages` list only goes forward.
pub broadcast proof fn lemma_forward_packages<P, X>(package_entry: Grammar<P, X>)
    requires
        forward(package_entry),
    ensures
        #[trigger] forward(packages(package_entry)),
{
    reveal(packages);
    broadcast use {group_forward, lemma_forward_spaces_around_keyword, lemma_forward_collection};

}

/// An import only goes forward.
pub broadcast proof fn lemma_forward_imports_entry()
    ensures
        #[trigger] forward(imports_entry()),
{
    broadcast use {
        group_forward,
        lemma_forward_ident,
        lemma_forward_word1,
        lemma_forward_module_name,
        lemma_forward_collection,
        lemma_forward_exposes_entry,
    };

}

/// An `imports` list only goes forward.
pub broadcast proof fn lemma_forward_imports()
    ensures
        #[trigger] forward(imports()),
{
    reveal(imports);
    broadcast use {
        group_forward,
        lemma_forward_spaces_around_keyword,
        lemma_forward_collection,
        lemma_forward_imports_entry,
    };

}

/// The short name of an effect type only goes forward.
pub broadcast proof fn lemma_forward_effect_shortname<X>()
    ensures
        #[trigger] forward(effect_shortname::<X>()),
{
    broadcast use {group_forward, lemma_forward_ident, lemma_forward_word1};

}

/// An effect type only goes forward.
pub broadcast proof fn lemma_forward_effect_type_name<X>()
    ensures
        #[trigger] forward(effect_type_name::<X>()),
{
    broadcast use {group_forward, lemma_forward_ident, lemma_forward_space0};

}

/// An `effects` list only goes forward.
pub broadcast proof fn lemma_forward_effects<T, X>(type_annotation: Grammar<Located<T>, X>)
    requires
        forward(type_annotation),
    ensures
        #[trigger] forward(effects(type_annotation)),
{
    reveal(effects);
    broadcast use {
        group_forward,
        lemma_forward_spaces_around_keyword,
        lemma_forward_collection,
        lemma_forward_ident,
        lemma_forward_word1,
        lemma_forward_space0,
        lemma_forward_typed_ident,
    };

}

/// The header of an interface only goes forward.
pub broadcast proof fn lemma_forward_interface_header<S, T>()
    ensures
        #[trigger] forward(interface_header_help::<S, T>()),
{
    reveal(interface_header_help);
    broadcast use {
        group_forward,
        lemma_forward_space0,
        lemma_forward_module_name,
        lemma_forward_exposes_values,
        lemma_forward_imports,
    };

}

/// The header of an app only goes forward.
pub broadcast proof fn lemma_forward_app_header<S, XS, E, XE, P, XP, T>(
    string_literal: Grammar<S, XS>,
    package_entry: Grammar<E, XE>,
    package_or_path: Grammar<P, XP>,
)
    requires
        forward(string_literal),
        forward(package_entry),
        forward(package_or_path),
    ensures
        #[trigger] forward(
            app_header_help::<S, XS, E, XE, P, XP, T>(
                string_literal,
                package_entry,
                package_or_path,
            ),
        ),
{
    reveal(app_header_help);
    broadcast use {
        group_forward,
        lemma_forward_space0,
        lemma_forward_packages,
        lemma_forward_imports,
        lemma_forward_provides_to,
    };

}

/// The header of a platform only goes forward.
pub broadcast proof fn lemma_forward_platform_header<N, XN, E, XE, T, XT, S>(
    package_name: Grammar<N, XN>,
    package_entry: Grammar<E, XE>,
    type_annotation: Grammar<Located<T>, XT>,
)
    requires
        forward(package_name),
        forward(package_entry),
        forward(type_annotation),
    ensures
        #[trigger] forward(
            platform_header_help::<N, XN, E, XE, T, XT, S>(
                package_name,
                package_entry,
                type_annotation,
            ),
        ),
{
    reveal(platform_header_help);
    broadcast use {
        group_forward,
        lemma_forward_space0,
        lemma_forward_requires_section,
        lemma_forward_exposes_modules,
        lemma_forward_packages,
        lemma_forward_imports,
        lemma_forward_provides_without_to,
        lemma_forward_effects,
    };

}

/// The header of a module only goes forward.
pub broadcast proof fn lemma_forward_header<S, XS, N, XN, E, XE, P, XP, T, XT>(
    string_literal: Grammar<S, XS>,
    package_name: Grammar<N, XN>,
    package_entry: Grammar<E, XE>,
    package_or_path: Grammar<P, XP>,
    type_annotation: Grammar<Located<T>, XT>,
)
    requires
        forward(string_literal),
        forward(package_name),
        forward(package_entry),
        forward(package_or_path),
        forward(type_annotation),
    ensures
        #[trigger] forward(
            header(
                string_literal,
                package_name,
                package_entry,
                package_or_path,
                type_annotation,
            ),
        ),
{
    broadcast use {
        group_forward,
        lemma_forward_ascii_string,
        lemma_forward_app_header,
        lemma_forward_platform_header,
        lemma_forward_interface_header,
    };

}

/// A definition with the blank space around it only goes forward.
pub broadcast proof fn lemma_forward_module_def<V, X>(def: Grammar<V, X>)
    requires
        forward(def),
    ensures
        #[trigger] forward(module_def(def)),
{
    broadcast use {group_forward, lemma_forward_space0};

}

/// A module body only goes forward.
pub broadcast proof fn lemma_forward_module_defs<V, X>(def: Grammar<V, X>)
    requires
        forward(def),
    ensures
        #[trigger] forward(module_defs(def)),
{
    broadcast use {group_forward, lemma_forward_module_def, lemma_forward_end_of_file};

}

} // verus!
