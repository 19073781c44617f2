//! What the sections of a header give back: a section that is written from names
//! is parsed to just these names.

use crate::ast::{
    CommentOrNewlineView, ImportsEntryView, NamesView, SpacedView, ToView, TypedIdentView,
};
use crate::blankspace::{space0, SPACE};
use crate::collection::collection_e;
use crate::combine::{loc, Grammar};
use crate::grammar::{
    effect_shortname, effect_type_name, effects, exposes_entry, exposes_module, exposes_modules,
    exposes_values, imports, imports_entry, module_name, opt_exposed_values, opt_shortname,
    packages, provides_to, provides_without_to, requires_section, spaces_around_keyword,
    typed_ident, MIN_INDENT,
};
use crate::ident::{lowercase_ident, uppercase_ident, Initial};
use crate::laws::{lemma_keyword_between_spaces, lemma_one_space, refuses, starts_blank};
use crate::names::{
    ends_ident, ends_module_name, is_ident, is_module_name, law_ident_given, law_module_name_given,
};
use crate::parts::law_effects_parts;
use crate::region::Located;
use crate::state::{MadeProgress, NoProgress, StateView};
use crate::texts::{
    all_taken, holds, is_entry, law_list_given, lemma_skip_twice, list_text, span, takes,
};
use crate::unicode::{lemma_first_char_ascii, lemma_first_char_of_text};
use vstd::prelude::*;
use vstd::utf8::encode_utf8;

verus! {

/// The UTF-8 forms of some names.
pub open spec fn encoded(names: Seq<Seq<char>>) -> Seq<Seq<u8>> {
    names.map_values(|name: Seq<char>| encode_utf8(name))
}

/// A keyword with a space on either side, and a list behind it.
pub open spec fn section_text(keyword: Seq<char>, list: Seq<u8>) -> Seq<u8> {
    seq![0x20u8] + (encode_utf8(keyword) + (seq![0x20u8] + list))
}

/// Whether a list holds just these names, in their order.
pub open spec fn lists(list: NamesView, names: Seq<Seq<char>>) -> bool {
    &&& list.len() == names.len()
    &&& forall|i: int| 0 <= i < list.len() ==> lists_name(#[trigger] list[i], names[i])
}

/// Whether an entry of a list is just this name, in a place as wide as it.
pub open spec fn lists_name(entry: Located<SpacedView<Seq<char>>>, name: Seq<char>) -> bool {
    &&& entry.value == SpacedView::Item(name)
    &&& entry.region.start_line == entry.region.end_line
    &&& entry.region.end_col - entry.region.start_col == encode_utf8(name).len()
}

/// That a text is `name`.
pub open spec fn is_text(name: Seq<char>) -> spec_fn(Seq<char>) -> bool {
    |text: Seq<char>| text == name
}

/// That texts are the names at their places.
pub open spec fn are_texts(names: Seq<Seq<char>>) -> Seq<spec_fn(Seq<char>) -> bool> {
    names.map_values(|name: Seq<char>| is_text(name))
}

proof fn lemma_lists(list: NamesView, names: Seq<Seq<char>>)
    requires
        holds(list, encoded(names), are_texts(names)),
    ensures
        lists(list, names),
{
    assert forall|i: int| 0 <= i < list.len() implies lists_name(#[trigger] list[i], names[i]) by {
        assert(is_entry(list[i], encoded(names)[i], are_texts(names)[i]));
    }
}

/// Where the bytes of a text start with an ASCII byte, the text starts with that
/// character.
pub proof fn lemma_first_byte(text: Seq<char>)
    requires
        text.len() > 0,
    ensures
        encode_utf8(text).len() > 0,
        encode_utf8(text)[0] < 0x80 ==> text[0] == encode_utf8(text)[0] as char,
{
    let bytes = encode_utf8(text);
    lemma_first_char_of_text(text, Seq::empty());
    assert(bytes + Seq::<u8>::empty() =~= bytes);
    if bytes[0] < 0x80 {
        let ch = bytes[0] as char;
        assert(ch as u8 == bytes[0]);
        lemma_first_char_ascii(ch, bytes.skip(1));
        assert(seq![bytes[0]] + bytes.skip(1) =~= bytes);
    }
}

/// A text that starts with none of the characters of blank space.
pub proof fn lemma_text_not_blank(text: Seq<char>)
    requires
        text.len() > 0,
        text[0] != ' ',
        text[0] != '\n',
        text[0] != '\r',
        text[0] != '\t',
        text[0] != '#',
    ensures
        !starts_blank(encode_utf8(text)),
{
    lemma_first_byte(text);
}

/// What follows a space or a comma does not go on with a name.
pub proof fn lemma_ends_name(rest: Seq<u8>)
    requires
        rest.len() > 0,
        rest[0] == 0x20 || rest[0] == 0x2c,
    ensures
        ends_ident(rest),
        ends_module_name(rest),
{
    let ch = rest[0] as char;
    assert(ch as u8 == rest[0]);
    lemma_first_char_ascii(ch, rest.skip(1));
    assert(seq![rest[0]] + rest.skip(1) =~= rest);
}

proof fn lemma_name_taken(name: Seq<char>)
    requires
        is_ident(Initial::Alphabetic, name),
    ensures
        takes(exposes_entry(), encode_utf8(name), is_text(name)),
{
    let text = encode_utf8(name);
    lemma_text_not_blank(name);
    lemma_first_byte(name);
    let p = exposes_entry();
    assert forall|s: StateView|
        text.is_prefix_of(s.bytes) && s.has_room(text.len() as int) && s.bytes.len() > text.len()
            && (s.bytes[text.len() as int] == 0x20 || s.bytes[text.len() as int] == 0x2c) implies (
    #[trigger] p(s) matches Ok((MadeProgress, a, s1)) && is_text(name)(a.value) && a.region == span(
        s,
        text.len() as int,
    ) && s1 == s.skip(text.len() as int)) by {
        let rest = s.bytes.skip(text.len() as int);
        assert(s.bytes =~= text + rest);
        lemma_ends_name(rest);
        law_ident_given(Initial::Alphabetic, name, rest, s);
    }
}

proof fn lemma_names_taken(names: Seq<Seq<char>>)
    requires
        forall|i: int| 0 <= i < names.len() ==> is_ident(Initial::Alphabetic, #[trigger] names[i]),
    ensures
        all_taken(exposes_entry(), encoded(names), are_texts(names)),
{
    assert forall|i: int| 0 <= i < names.len() implies takes(
        exposes_entry(),
        #[trigger] encoded(names)[i],
        are_texts(names)[i],
    ) by {
        lemma_name_taken(names[i]);
    }
}

proof fn lemma_module_taken(name: Seq<char>)
    requires
        is_module_name(name),
    ensures
        takes(exposes_module(), encode_utf8(name), is_text(name)),
{
    let text = encode_utf8(name);
    lemma_text_not_blank(name);
    lemma_first_byte(name);
    let p = exposes_module();
    assert forall|s: StateView|
        text.is_prefix_of(s.bytes) && s.has_room(text.len() as int) && s.bytes.len() > text.len()
            && (s.bytes[text.len() as int] == 0x20 || s.bytes[text.len() as int] == 0x2c) implies (
    #[trigger] p(s) matches Ok((MadeProgress, a, s1)) && is_text(name)(a.value) && a.region == span(
        s,
        text.len() as int,
    ) && s1 == s.skip(text.len() as int)) by {
        let rest = s.bytes.skip(text.len() as int);
        assert(s.bytes =~= text + rest);
        lemma_ends_name(rest);
        law_module_name_given(name, rest, s);
    }
}

proof fn lemma_modules_taken(names: Seq<Seq<char>>)
    requires
        forall|i: int| 0 <= i < names.len() ==> is_module_name(#[trigger] names[i]),
    ensures
        all_taken(exposes_module(), encoded(names), are_texts(names)),
{
    assert forall|i: int| 0 <= i < names.len() implies takes(
        exposes_module(),
        #[trigger] encoded(names)[i],
        are_texts(names)[i],
    ) by {
        lemma_module_taken(names[i]);
    }
}

/// No name starts with a closing bracket.
proof fn lemma_names_refused()
    ensures
        refuses(exposes_entry(), 0x5d),
        refuses(exposes_entry(), 0x7d),
        refuses(exposes_module(), 0x5d),
{
    assert forall|s: StateView| s.bytes.len() > 0 && s.bytes[0] == 0x5d implies (
    #[trigger] exposes_entry()(s) matches Err((NoProgress, _, _))) by {
        lemma_first_char_ascii(']', s.bytes.skip(1));
        assert(seq![0x5du8] + s.bytes.skip(1) =~= s.bytes);
    }
    assert forall|s: StateView| s.bytes.len() > 0 && s.bytes[0] == 0x7d implies (
    #[trigger] exposes_entry()(s) matches Err((NoProgress, _, _))) by {
        lemma_first_char_ascii('}', s.bytes.skip(1));
        assert(seq![0x7du8] + s.bytes.skip(1) =~= s.bytes);
    }
    assert forall|s: StateView| s.bytes.len() > 0 && s.bytes[0] == 0x5d implies (
    #[trigger] exposes_module()(s) matches Err((NoProgress, _, _))) by {
        lemma_first_char_ascii(']', s.bytes.skip(1));
        assert(seq![0x5du8] + s.bytes.skip(1) =~= s.bytes);
    }
}

/// A list behind a keyword, where the keyword is no blank space.
proof fn lemma_section_given<A, E>(
    keyword: Seq<char>,
    opening: u8,
    p: Grammar<Located<A>, E>,
    closing: u8,
    texts: Seq<Seq<u8>>,
    facts: Seq<spec_fn(A) -> bool>,
    rest: Seq<u8>,
    s: StateView,
)
    requires
        keyword.len() > 0,
        !starts_blank(encode_utf8(keyword)),
        all_taken(p, texts, facts),
        refuses(p, closing),
        closing != 0x2c,
        !starts_blank(seq![opening]),
        !starts_blank(seq![closing]),
        s.bytes == section_text(keyword, list_text(opening, texts, closing)) + rest,
        s.has_room(section_text(keyword, list_text(opening, texts, closing)).len() as int),
    ensures
        ({
            let width = section_text(keyword, list_text(opening, texts, closing)).len() as int;
            let none = Seq::<CommentOrNewlineView>::empty();
            &&& spaces_around_keyword(MIN_INDENT, keyword)(s) matches Ok((MadeProgress, around, s1))
            &&& around == (none, none)
            &&& collection_e(opening, p, 0x2c, closing, MIN_INDENT)(s1) matches Ok(
                (MadeProgress, list, end),
            )
            &&& holds(list, texts, facts)
            &&& end == s.skip(width)
            &&& end.bytes == rest
        }),
{
    let word = encode_utf8(keyword);
    let list = list_text(opening, texts, closing);
    let width = word.len() as int + 2;
    assert(s.bytes =~= seq![SPACE] + (word + (seq![SPACE] + (list + rest))));
    assert(seq![opening][0] == opening);
    assert((list + rest)[0] == opening);
    lemma_keyword_between_spaces(MIN_INDENT, keyword, list + rest, s);
    let s1 = s.skip(width);
    law_list_given(opening, p, closing, MIN_INDENT, texts, facts, rest, s1);
    assert(s1.skip(list.len() as int) == s.skip(width + list.len() as int)) by {
        assert(s1.bytes.skip(list.len() as int) =~= s.bytes.skip(width + list.len() as int));
    }
}

/// The keywords of a header are no blank space.
pub proof fn lemma_keywords_not_blank()
    ensures
        "exposes"@.len() > 0 && !starts_blank(encode_utf8("exposes"@)),
        "provides"@.len() > 0 && !starts_blank(encode_utf8("provides"@)),
        "imports"@.len() > 0 && !starts_blank(encode_utf8("imports"@)),
        "packages"@.len() > 0 && !starts_blank(encode_utf8("packages"@)),
        "requires"@.len() > 0 && !starts_blank(encode_utf8("requires"@)),
        "effects"@.len() > 0 && !starts_blank(encode_utf8("effects"@)),
        "to"@.len() > 0 && !starts_blank(encode_utf8("to"@)),
{
    reveal_strlit("exposes");
    reveal_strlit("provides");
    reveal_strlit("imports");
    reveal_strlit("packages");
    reveal_strlit("requires");
    reveal_strlit("effects");
    reveal_strlit("to");
    lemma_text_not_blank("exposes"@);
    lemma_text_not_blank("provides"@);
    lemma_text_not_blank("imports"@);
    lemma_text_not_blank("packages"@);
    lemma_text_not_blank("requires"@);
    lemma_text_not_blank("effects"@);
    lemma_text_not_blank("to"@);
}

/// e.g. ` exposes [ map, after, fail ]`: the values are just those between the
/// brackets, in their order, whatever their number.
pub proof fn law_exposes_values_written(names: Seq<Seq<char>>, rest: Seq<u8>, s: StateView)
    requires
        forall|i: int| 0 <= i < names.len() ==> is_ident(Initial::Alphabetic, #[trigger] names[i]),
        s.bytes == section_text("exposes"@, list_text(0x5b, encoded(names), 0x5d)) + rest,
        s.has_room(
            section_text("exposes"@, list_text(0x5b, encoded(names), 0x5d)).len() as int,
        ),
    ensures
        exposes_values()(s) matches Ok((MadeProgress, (around, list), end)) && around.0.len() == 0
            && around.1.len() == 0 && lists(list, names) && end == s.skip(
            section_text("exposes"@, list_text(0x5b, encoded(names), 0x5d)).len() as int,
        ) && end.bytes == rest,
{
    lemma_keywords_not_blank();
    lemma_names_taken(names);
    lemma_names_refused();
    lemma_section_given(
        "exposes"@,
        0x5b,
        exposes_entry(),
        0x5d,
        encoded(names),
        are_texts(names),
        rest,
        s,
    );
    let s1 = spaces_around_keyword(MIN_INDENT, "exposes"@)(s)->Ok_0.2;
    lemma_lists(
        collection_e(0x5b, exposes_entry(), 0x2c, 0x5d, MIN_INDENT)(s1)->Ok_0.1,
        names,
    );
    reveal(exposes_values);
}

/// e.g. ` exposes [ Task, Http.Client ]`: the modules are just those between the
/// brackets, in their order, whatever their number.
pub proof fn law_exposes_modules_written(names: Seq<Seq<char>>, rest: Seq<u8>, s: StateView)
    requires
        forall|i: int| 0 <= i < names.len() ==> is_module_name(#[trigger] names[i]),
        s.bytes == section_text("exposes"@, list_text(0x5b, encoded(names), 0x5d)) + rest,
        s.has_room(
            section_text("exposes"@, list_text(0x5b, encoded(names), 0x5d)).len() as int,
        ),
    ensures
        exposes_modules()(s) matches Ok((MadeProgress, (around, list), end)) && around.0.len()
            == 0 && around.1.len() == 0 && lists(list, names) && end == s.skip(
            section_text("exposes"@, list_text(0x5b, encoded(names), 0x5d)).len() as int,
        ) && end.bytes == rest,
{
    lemma_keywords_not_blank();
    lemma_modules_taken(names);
    lemma_names_refused();
    lemma_section_given(
        "exposes"@,
        0x5b,
        exposes_module(),
        0x5d,
        encoded(names),
        are_texts(names),
        rest,
        s,
    );
    let s1 = spaces_around_keyword(MIN_INDENT, "exposes"@)(s)->Ok_0.2;
    lemma_lists(
        collection_e(0x5b, exposes_module(), 0x2c, 0x5d, MIN_INDENT)(s1)->Ok_0.1,
        names,
    );
    reveal(exposes_modules);
}

/// e.g. ` provides [ main, other ]`: what is provided is just what stands between
/// the brackets, in its order, whatever its number.
pub proof fn law_provides_written(names: Seq<Seq<char>>, rest: Seq<u8>, s: StateView)
    requires
        forall|i: int| 0 <= i < names.len() ==> is_ident(Initial::Alphabetic, #[trigger] names[i]),
        s.bytes == section_text("provides"@, list_text(0x5b, encoded(names), 0x5d)) + rest,
        s.has_room(
            section_text("provides"@, list_text(0x5b, encoded(names), 0x5d)).len() as int,
        ),
    ensures
        provides_without_to()(s) matches Ok((MadeProgress, (around, list), end)) && around.0.len()
            == 0 && around.1.len() == 0 && lists(list, names) && end == s.skip(
            section_text("provides"@, list_text(0x5b, encoded(names), 0x5d)).len() as int,
        ) && end.bytes == rest,
{
    lemma_keywords_not_blank();
    lemma_names_taken(names);
    lemma_names_refused();
    lemma_section_given(
        "provides"@,
        0x5b,
        exposes_entry(),
        0x5d,
        encoded(names),
        are_texts(names),
        rest,
        s,
    );
    let s1 = spaces_around_keyword(MIN_INDENT, "provides"@)(s)->Ok_0.2;
    lemma_lists(
        collection_e(0x5b, exposes_entry(), 0x2c, 0x5d, MIN_INDENT)(s1)->Ok_0.1,
        names,
    );
    reveal(provides_without_to);
}

/// A `provides` list, a space, `to`, a space and a package.
pub open spec fn provides_to_text(names: Seq<Seq<char>>, package: Seq<u8>) -> Seq<u8> {
    section_text("provides"@, list_text(0x5b, encoded(names), 0x5d)) + section_text("to"@, package)
}

/// e.g. ` provides [ main, other ] to base`: what is provided is just what stands
/// between the brackets, and it is provided to the package behind them.
pub proof fn law_provides_to_written<P, X>(
    package_or_path: Grammar<P, X>,
    names: Seq<Seq<char>>,
    package: Seq<char>,
    rest: Seq<u8>,
    s: StateView,
)
    requires
        forall|i: int| 0 <= i < names.len() ==> is_ident(Initial::Alphabetic, #[trigger] names[i]),
        is_ident(Initial::Lowercase, package),
        ends_ident(rest),
        s.bytes == provides_to_text(names, encode_utf8(package)) + rest,
        s.has_room(provides_to_text(names, encode_utf8(package)).len() as int),
    ensures
        provides_to(package_or_path)(s) matches Ok((MadeProgress, provides, end)) && lists(
            provides.entries,
            names,
        ) && provides.to.value == ToView::<P>::ExistingPackage(package)
            && provides.before_provides_keyword.len() == 0 && provides.after_provides_keyword.len()
            == 0 && provides.before_to_keyword.len() == 0 && provides.after_to_keyword.len() == 0
            && end == s.skip(provides_to_text(names, encode_utf8(package)).len() as int)
            && end.bytes == rest,
{
    let list = section_text("provides"@, list_text(0x5b, encoded(names), 0x5d));
    let text = encode_utf8(package);
    let to = section_text("to"@, text);
    assert(s.bytes =~= list + (to + rest));
    law_provides_written(names, to + rest, s);
    let s1 = s.skip(list.len() as int);
    lemma_keywords_not_blank();
    lemma_text_not_blank(package);
    lemma_first_byte(package);
    assert(s1.bytes =~= seq![SPACE] + (encode_utf8("to"@) + (seq![SPACE] + (text + rest))));
    assert((text + rest)[0] == text[0]);
    lemma_keyword_between_spaces(MIN_INDENT, "to"@, text + rest, s1);
    let width = encode_utf8("to"@).len() as int + 2;
    let s2 = s1.skip(width);
    law_ident_given(Initial::Lowercase, package, rest, s2);
    let total = list.len() as int + width + text.len() as int;
    assert(s2.skip(text.len() as int) == s.skip(total)) by {
        assert(s2.bytes.skip(text.len() as int) =~= s.bytes.skip(total));
    }
    assert(s.bytes.skip(total) =~= rest);
    reveal(provides_to);
}

/// e.g. ` packages { base: "./p", json: "./json" }`: the packages are just those
/// between the brackets, in their order, whatever their number.
pub proof fn law_packages_written<P, X>(
    package_entry: Grammar<P, X>,
    texts: Seq<Seq<u8>>,
    facts: Seq<spec_fn(P) -> bool>,
    rest: Seq<u8>,
    s: StateView,
)
    requires
        all_taken(loc(package_entry), texts, facts),
        refuses(loc(package_entry), 0x7d),
        s.bytes == section_text("packages"@, list_text(0x7b, texts, 0x7d)) + rest,
        s.has_room(section_text("packages"@, list_text(0x7b, texts, 0x7d)).len() as int),
    ensures
        packages(package_entry)(s) matches Ok((MadeProgress, found, end))
            && found.before_packages_keyword.len() == 0 && found.after_packages_keyword.len() == 0
            && holds(found.entries, texts, facts) && end == s.skip(
            section_text("packages"@, list_text(0x7b, texts, 0x7d)).len() as int,
        ) && end.bytes == rest,
{
    lemma_keywords_not_blank();
    lemma_section_given(
        "packages"@,
        0x7b,
        loc(package_entry),
        0x7d,
        texts,
        facts,
        rest,
        s,
    );
    reveal(packages);
}

/// A name, a colon between spaces, and a type.
pub open spec fn typed_text(name: Seq<char>, annotation: Seq<u8>) -> Seq<u8> {
    encode_utf8(name) + (seq![0x20u8, 0x3au8, 0x20u8] + annotation)
}

/// That something is a name with a type of which `fact` holds.
pub open spec fn is_typed<T>(name: Seq<char>, fact: spec_fn(T) -> bool) -> spec_fn(
    TypedIdentView<T>,
) -> bool {
    |typed: TypedIdentView<T>|
        {
            &&& typed.ident.value == name
            &&& typed.ident.region.start_line == typed.ident.region.end_line
            &&& typed.ident.region.end_col - typed.ident.region.start_col == encode_utf8(name).len()
            &&& typed.spaces_before_colon.len() == 0
            &&& typed.ann.value matches SpacedView::Item(annotation) && fact(annotation)
        }
}

/// e.g. `putLine : Str`: the name and the type are those that stand there.
#[verifier::rlimit(40)]
pub proof fn law_typed_ident_written<T, X>(
    type_annotation: Grammar<Located<T>, X>,
    name: Seq<char>,
    annotation: Seq<u8>,
    fact: spec_fn(T) -> bool,
)
    requires
        is_ident(Initial::Lowercase, name),
        takes(type_annotation, annotation, fact),
    ensures
        takes(
            loc(typed_ident(type_annotation)),
            typed_text(name, annotation),
            is_typed(name, fact),
        ),
{
    let text = typed_text(name, annotation);
    let word = encode_utf8(name);
    let len = word.len() as int;
    let total = text.len() as int;
    lemma_text_not_blank(name);
    lemma_first_byte(name);
    assert(text[0] == word[0]);
    let p = loc(typed_ident(type_annotation));
    assert forall|s: StateView|
        text.is_prefix_of(s.bytes) && s.has_room(total) && s.bytes.len() > total && (s.bytes[total]
            == 0x20 || s.bytes[total] == 0x2c) implies (#[trigger] p(s) matches Ok(
        (MadeProgress, a, s1),
    ) && is_typed(name, fact)(a.value) && a.region == span(s, total) && s1 == s.skip(total)) by {
        let rest = s.bytes.skip(total);
        assert(s.bytes =~= text + rest);
        let behind = seq![0x20u8, 0x3au8, 0x20u8] + (annotation + rest);
        assert(s.bytes =~= word + behind);
        lemma_ends_name(behind);
        law_ident_given(Initial::Lowercase, name, behind, s);
        let s1 = s.skip(len);
        assert(s1.bytes =~= behind);
        assert(s1.bytes.skip(1)[0] == 0x3a);
        lemma_one_space(0, s1);
        let s2 = s1.skip(1);
        assert(s2.bytes =~= seq![0x3au8, 0x20u8] + (annotation + rest));
        let s3 = s2.skip(1);
        assert(s3.bytes =~= seq![0x20u8] + (annotation + rest));
        assert(s3.bytes.skip(1) =~= annotation + rest);
        assert(s3.bytes.skip(1)[0] == annotation[0]);
        lemma_one_space(0, s3);
        let s4 = s3.skip(1);
        let width = annotation.len() as int;
        assert(annotation.is_prefix_of(s4.bytes)) by {
            assert(s4.bytes.subrange(0, width) =~= annotation);
        }
        assert(s4.bytes[width] == rest[0]);
        assert(type_annotation(s4) matches Ok((MadeProgress, _, end)) && end == s4.skip(width));
        assert(s4.skip(width) == s.skip(total)) by {
            assert(s4.bytes.skip(width) =~= s.bytes.skip(total));
        }
    }
}

/// The texts of names with their types.
pub open spec fn typed_texts(names: Seq<Seq<char>>, annotations: Seq<Seq<u8>>) -> Seq<Seq<u8>> {
    Seq::new(names.len(), |i: int| typed_text(names[i], annotations[i]))
}

/// That values are the names with types at their places.
pub open spec fn are_typed<T>(
    names: Seq<Seq<char>>,
    facts: Seq<spec_fn(T) -> bool>,
) -> Seq<spec_fn(TypedIdentView<T>) -> bool> {
    Seq::new(names.len(), |i: int| is_typed(names[i], facts[i]))
}

/// Names that each start with a lowercase letter, each with a type that is taken.
pub open spec fn types_taken<T, X>(
    type_annotation: Grammar<Located<T>, X>,
    names: Seq<Seq<char>>,
    annotations: Seq<Seq<u8>>,
    facts: Seq<spec_fn(T) -> bool>,
) -> bool {
    &&& forall|i: int| 0 <= i < names.len() ==> is_ident(Initial::Lowercase, #[trigger] names[i])
    &&& names.len() == annotations.len()
    &&& all_taken(type_annotation, annotations, facts)
}

proof fn lemma_types_taken<T, X>(
    type_annotation: Grammar<Located<T>, X>,
    names: Seq<Seq<char>>,
    annotations: Seq<Seq<u8>>,
    facts: Seq<spec_fn(T) -> bool>,
)
    requires
        types_taken(type_annotation, names, annotations, facts),
    ensures
        all_taken(
            loc(typed_ident(type_annotation)),
            typed_texts(names, annotations),
            are_typed(names, facts),
        ),
{
    assert forall|i: int| 0 <= i < names.len() implies takes(
        loc(typed_ident(type_annotation)),
        #[trigger] typed_texts(names, annotations)[i],
        are_typed(names, facts)[i],
    ) by {
        assert(takes(type_annotation, annotations[i], facts[i]));
        law_typed_ident_written(type_annotation, names[i], annotations[i], facts[i]);
    }
}

/// No name with a type starts with a closing bracket.
proof fn lemma_typed_ident_refused<T, X>(type_annotation: Grammar<Located<T>, X>)
    ensures
        refuses(loc(typed_ident(type_annotation)), 0x7d),
{
    let p = loc(typed_ident(type_annotation));
    assert forall|s: StateView| s.bytes.len() > 0 && s.bytes[0] == 0x7d implies (#[trigger] p(
        s,
    ) matches Err((NoProgress, _, _))) by {
        lemma_first_char_ascii('}', s.bytes.skip(1));
        assert(seq![0x7du8] + s.bytes.skip(1) =~= s.bytes);
        assert(lowercase_ident()(s) matches Err((NoProgress, _, _)));
    }
}

/// e.g. ` requires { main : Task, init : Int }`: what is required is just what
/// stands between the brackets, in its order, whatever its number.
pub proof fn law_requires_written<T, X>(
    type_annotation: Grammar<Located<T>, X>,
    names: Seq<Seq<char>>,
    annotations: Seq<Seq<u8>>,
    facts: Seq<spec_fn(T) -> bool>,
    rest: Seq<u8>,
    s: StateView,
)
    requires
        types_taken(type_annotation, names, annotations, facts),
        s.bytes == section_text(
            "requires"@,
            list_text(0x7b, typed_texts(names, annotations), 0x7d),
        ) + rest,
        s.has_room(
            section_text(
                "requires"@,
                list_text(0x7b, typed_texts(names, annotations), 0x7d),
            ).len() as int,
        ),
    ensures
        requires_section(type_annotation)(s) matches Ok((MadeProgress, (around, list), end))
            && around.0.len() == 0 && around.1.len() == 0 && holds(
            list,
            typed_texts(names, annotations),
            are_typed(names, facts),
        ) && end == s.skip(
            section_text(
                "requires"@,
                list_text(0x7b, typed_texts(names, annotations), 0x7d),
            ).len() as int,
        ) && end.bytes == rest,
{
    lemma_keywords_not_blank();
    lemma_types_taken(type_annotation, names, annotations, facts);
    lemma_typed_ident_refused(type_annotation);
    lemma_section_given(
        "requires"@,
        0x7b,
        loc(typed_ident(type_annotation)),
        0x7d,
        typed_texts(names, annotations),
        are_typed(names, facts),
        rest,
        s,
    );
    reveal(requires_section);
}

/// An import, as it is written: the package and a dot, where it names one; the
/// module; and a dot and the values in brackets, where it lists them.
pub open spec fn import_text(
    package: Option<Seq<char>>,
    name: Seq<char>,
    values: Option<Seq<Seq<char>>>,
) -> Seq<u8> {
    let start = match package {
        Some(package) => encode_utf8(package) + seq![0x2eu8],
        None => Seq::empty(),
    };
    start + import_text_behind(name, values)
}

/// An import, as it is written behind its package.
pub open spec fn import_text_behind(name: Seq<char>, values: Option<Seq<Seq<char>>>) -> Seq<u8> {
    let end = match values {
        Some(values) => seq![0x2eu8] + list_text(0x7b, encoded(values), 0x7d),
        None => Seq::empty(),
    };
    encode_utf8(name) + end
}

/// Whether the names that an import is written from are names of their kind. What
/// names no package does not start like one.
pub open spec fn import_named(
    package: Option<Seq<char>>,
    name: Seq<char>,
    values: Option<Seq<Seq<char>>>,
) -> bool {
    &&& package matches Some(package) ==> is_ident(Initial::Lowercase, package)
    &&& package is None ==> !Initial::Lowercase.accepts(name[0])
    &&& is_module_name(name)
    &&& values matches Some(values) ==> forall|i: int|
        0 <= i < values.len() ==> is_ident(Initial::Alphabetic, #[trigger] values[i])
}

/// That something is an import of a module, from a package where it names one,
/// that exposes just these values.
pub open spec fn is_import(
    package: Option<Seq<char>>,
    name: Seq<char>,
    values: Option<Seq<Seq<char>>>,
) -> spec_fn(ImportsEntryView) -> bool {
    |entry: ImportsEntryView|
        {
            let exposed = match values {
                Some(values) => values,
                None => Seq::empty(),
            };
            match entry {
                ImportsEntryView::Module(m, list) => {
                    &&& package is None
                    &&& m == name
                    &&& lists(list, exposed)
                },
                ImportsEntryView::Package(p, m, list) => {
                    &&& package == Some(p)
                    &&& m == name
                    &&& lists(list, exposed)
                },
            }
        }
}

/// What stands behind the module of an import.
proof fn lemma_exposed_given(values: Option<Seq<Seq<char>>>, rest: Seq<u8>, s: StateView)
    requires
        values matches Some(values) ==> forall|i: int|
            0 <= i < values.len() ==> is_ident(Initial::Alphabetic, #[trigger] values[i]),
        rest.len() > 0,
        rest[0] == 0x20 || rest[0] == 0x2c,
        values is None ==> s.bytes == rest,
        values matches Some(values) ==> s.bytes == (seq![0x2eu8] + list_text(
            0x7b,
            encoded(values),
            0x7d,
        )) + rest && s.has_room(list_text(0x7b, encoded(values), 0x7d).len() as int + 1),
    ensures
        match values {
            None => opt_exposed_values()(s) matches Ok((_, None, end)) && end == s,
            Some(values) => opt_exposed_values()(s) matches Ok((_, Some(list), end)) && lists(
                list,
                values,
            ) && end == s.skip(list_text(0x7b, encoded(values), 0x7d).len() as int + 1),
        },
{
    if let Some(names) = values {
        let text = list_text(0x7b, encoded(names), 0x7d);
        assert(s.bytes[0] == 0x2e);
        let s1 = s.skip(1);
        assert(s1.bytes =~= text + rest);
        lemma_names_taken(names);
        lemma_names_refused();
        assert(seq![0x7du8][0] == 0x7d);
        law_list_given(
            0x7b,
            exposes_entry(),
            0x7d,
            MIN_INDENT,
            encoded(names),
            are_texts(names),
            rest,
            s1,
        );
        lemma_lists(
            collection_e(0x7b, exposes_entry(), 0x2c, 0x7d, MIN_INDENT)(s1)->Ok_0.1,
            names,
        );
        assert(s1.skip(text.len() as int) == s.skip(text.len() as int + 1)) by {
            assert(s1.bytes.skip(text.len() as int) =~= s.bytes.skip(text.len() as int + 1));
        }
    }
}

/// A dot that does not stand before an uppercase letter ends a module name.
proof fn lemma_ends_module_name(values: Option<Seq<Seq<char>>>, rest: Seq<u8>)
    requires
        rest.len() > 0,
        rest[0] == 0x20 || rest[0] == 0x2c,
    ensures
        values is None ==> ends_module_name(rest),
        values matches Some(values) ==> ends_module_name(
            (seq![0x2eu8] + list_text(0x7b, encoded(values), 0x7d)) + rest,
        ),
{
    lemma_ends_name(rest);
    if let Some(names) = values {
        let text = list_text(0x7b, encoded(names), 0x7d);
        let bytes = (seq![0x2eu8] + text) + rest;
        assert(bytes =~= seq![0x2eu8] + (text + rest));
        lemma_first_char_ascii('.', text + rest);
        assert(bytes.skip(1) =~= text + rest);
        assert((text + rest)[0] == 0x7b);
        lemma_first_char_ascii('{', (text + rest).skip(1));
        assert(seq![0x7bu8] + (text + rest).skip(1) =~= text + rest);
    }
}

/// The package of an import, or that it names none.
proof fn lemma_shortname_given(
    package: Option<Seq<char>>,
    name: Seq<char>,
    tail: Seq<u8>,
    s: StateView,
)
    requires
        package matches Some(package) ==> is_ident(Initial::Lowercase, package),
        name.len() > 0,
        package is None ==> !Initial::Lowercase.accepts(name[0]),
        package is None ==> s.bytes == encode_utf8(name) + tail,
        package matches Some(package) ==> s.bytes == encode_utf8(package) + (seq![0x2eu8] + (
        encode_utf8(name) + tail)) && s.has_room(encode_utf8(package).len() as int + 1),
    ensures
        match package {
            Some(package) => opt_shortname()(s) matches Ok((_, Some(p), end)) && p == package && end
                == s.skip(encode_utf8(package).len() as int + 1),
            None => opt_shortname()(s) matches Ok((_, None, end)) && end == s,
        },
{
    let text = encode_utf8(name) + tail;
    match package {
        Some(package) => {
            let short = encode_utf8(package);
            let behind = seq![0x2eu8] + text;
            lemma_first_char_ascii('.', text);
            law_ident_given(Initial::Lowercase, package, behind, s);
            let at_dot = s.skip(short.len() as int);
            assert(at_dot.bytes =~= behind);
            assert(at_dot.bytes[0] == 0x2e);
            assert(at_dot.skip(1) == s.skip(short.len() as int + 1)) by {
                assert(at_dot.bytes.skip(1) =~= s.bytes.skip(short.len() as int + 1));
            }
        },
        None => {
            lemma_first_char_of_text(name, tail);
            lemma_first_byte(name);
            assert(lowercase_ident()(s) matches Err((NoProgress, _, _)));
        },
    }
}

/// The module of an import and what stands behind it.
proof fn lemma_import_behind_given(
    name: Seq<char>,
    values: Option<Seq<Seq<char>>>,
    rest: Seq<u8>,
    s: StateView,
)
    requires
        is_module_name(name),
        values matches Some(values) ==> forall|i: int|
            0 <= i < values.len() ==> is_ident(Initial::Alphabetic, #[trigger] values[i]),
        rest.len() > 0,
        rest[0] == 0x20 || rest[0] == 0x2c,
        s.bytes == import_text_behind(name, values) + rest,
        s.has_room(import_text_behind(name, values).len() as int),
    ensures
        ({
            let exposed = match values {
                Some(values) => values,
                None => Seq::empty(),
            };
            &&& module_name()(s) matches Ok((MadeProgress, m, s1))
            &&& m == name
            &&& opt_exposed_values()(s1) matches Ok((_, list, end))
            &&& list is Some <==> values is Some
            &&& list matches Some(list) ==> lists(list, exposed)
            &&& end == s.skip(import_text_behind(name, values).len() as int)
        }),
{
    let word = encode_utf8(name);
    let tail = match values {
        Some(values) => (seq![0x2eu8] + list_text(0x7b, encoded(values), 0x7d)) + rest,
        None => rest,
    };
    let total = import_text_behind(name, values).len() as int;
    assert(s.bytes =~= word + tail);
    lemma_ends_module_name(values, rest);
    law_module_name_given(name, tail, s);
    let s1 = s.skip(word.len() as int);
    assert(s1.bytes =~= tail);
    lemma_exposed_given(values, rest, s1);
    let end = opt_exposed_values()(s1)->Ok_0.2;
    assert(end == s.skip(total)) by {
        assert(end.bytes =~= s.bytes.skip(total));
    }
}

proof fn lemma_import_given(
    package: Option<Seq<char>>,
    name: Seq<char>,
    values: Option<Seq<Seq<char>>>,
    rest: Seq<u8>,
    s: StateView,
)
    requires
        import_named(package, name, values),
        rest.len() > 0,
        rest[0] == 0x20 || rest[0] == 0x2c,
        s.bytes == import_text(package, name, values) + rest,
        s.has_room(import_text(package, name, values).len() as int),
    ensures
        imports_entry()(s) matches Ok((MadeProgress, entry, end)) && is_import(
            package,
            name,
            values,
        )(entry) && end == s.skip(import_text(package, name, values).len() as int),
{
    let text = import_text_behind(name, values);
    let total = import_text(package, name, values).len() as int;
    let tail = (text + rest).skip(encode_utf8(name).len() as int);
    assert(text + rest =~= encode_utf8(name) + tail);
    let start = match package {
        Some(package) => encode_utf8(package).len() as int + 1,
        None => 0,
    };
    let s1 = s.skip(start);
    if let Some(package) = package {
        assert(s.bytes =~= encode_utf8(package) + (seq![0x2eu8] + (text + rest)));
    } else {
        assert(s.bytes =~= text + rest);
        assert(s.bytes.skip(0) =~= s.bytes);
    }
    lemma_shortname_given(package, name, tail, s);
    assert(s1.bytes =~= text + rest);
    lemma_import_behind_given(name, values, rest, s1);
    assert(s1.skip(text.len() as int) == s.skip(total)) by {
        assert(s1.bytes.skip(text.len() as int) =~= s.bytes.skip(total));
    }
    assert(lists(Seq::empty(), Seq::empty()));
}

/// e.g. `base.Task.{ Task, after }`: the import is of the module, from the package
/// and with the values that stand there.
pub proof fn law_import_written(
    package: Option<Seq<char>>,
    name: Seq<char>,
    values: Option<Seq<Seq<char>>>,
)
    requires
        import_named(package, name, values),
    ensures
        takes(
            loc(imports_entry()),
            import_text(package, name, values),
            is_import(package, name, values),
        ),
{
    let text = import_text(package, name, values);
    let total = text.len() as int;
    lemma_text_not_blank(name);
    lemma_first_byte(name);
    if let Some(package) = package {
        lemma_text_not_blank(package);
        lemma_first_byte(package);
        assert(text[0] == encode_utf8(package)[0]);
    } else {
        assert(text =~= import_text_behind(name, values));
        assert(text[0] == encode_utf8(name)[0]);
    }
    let p = loc(imports_entry());
    assert forall|s: StateView|
        text.is_prefix_of(s.bytes) && s.has_room(total) && s.bytes.len() > total && (s.bytes[total]
            == 0x20 || s.bytes[total] == 0x2c) implies (#[trigger] p(s) matches Ok(
        (MadeProgress, a, s1),
    ) && is_import(package, name, values)(a.value) && a.region == span(s, total) && s1 == s.skip(
        total,
    )) by {
        let rest = s.bytes.skip(total);
        assert(s.bytes =~= text + rest);
        lemma_import_given(package, name, values, rest, s);
    }
}

/// An import, as it is written.
pub struct WrittenImport {
    pub package: Option<Seq<char>>,
    pub name: Seq<char>,
    pub values: Option<Seq<Seq<char>>>,
}

/// The texts of some imports.
pub open spec fn import_texts(imports: Seq<WrittenImport>) -> Seq<Seq<u8>> {
    imports.map_values(|i: WrittenImport| import_text(i.package, i.name, i.values))
}

/// That values are the imports at their places.
pub open spec fn are_imports(imports: Seq<WrittenImport>) -> Seq<
    spec_fn(ImportsEntryView) -> bool,
> {
    imports.map_values(|i: WrittenImport| is_import(i.package, i.name, i.values))
}

/// Whether some imports are all written from names of their kind.
pub open spec fn imports_named(imports: Seq<WrittenImport>) -> bool {
    forall|i: int|
        0 <= i < imports.len() ==> import_named(
            (#[trigger] imports[i]).package,
            imports[i].name,
            imports[i].values,
        )
}

/// No import starts with a closing bracket.
proof fn lemma_imports_entry_refused()
    ensures
        refuses(loc(imports_entry()), 0x5d),
{
    let p = loc(imports_entry());
    assert forall|s: StateView| s.bytes.len() > 0 && s.bytes[0] == 0x5d implies (#[trigger] p(
        s,
    ) matches Err((NoProgress, _, _))) by {
        lemma_first_char_ascii(']', s.bytes.skip(1));
        assert(seq![0x5du8] + s.bytes.skip(1) =~= s.bytes);
        assert(lowercase_ident()(s) matches Err((NoProgress, _, _)));
        assert(opt_shortname()(s) matches Ok((NoProgress, None, s1)) && s1 == s);
        assert(module_name()(s) matches Err((NoProgress, _, _)));
    }
}

/// e.g. ` imports [ base.Task.{ after }, Json.Decode ]`: the imports are just those
/// between the brackets, in their order, whatever their number.
pub proof fn law_imports_written(written: Seq<WrittenImport>, rest: Seq<u8>, s: StateView)
    requires
        imports_named(written),
        s.bytes == section_text("imports"@, list_text(0x5b, import_texts(written), 0x5d)) + rest,
        s.has_room(
            section_text("imports"@, list_text(0x5b, import_texts(written), 0x5d)).len() as int,
        ),
    ensures
        imports()(s) matches Ok((MadeProgress, (around, list), end)) && around.0.len() == 0
            && around.1.len() == 0 && holds(list, import_texts(written), are_imports(written))
            && end == s.skip(
            section_text("imports"@, list_text(0x5b, import_texts(written), 0x5d)).len() as int,
        ) && end.bytes == rest,
{
    let p = loc(imports_entry());
    lemma_keywords_not_blank();
    lemma_imports_entry_refused();
    assert forall|i: int| 0 <= i < written.len() implies takes(
        p,
        #[trigger] import_texts(written)[i],
        are_imports(written)[i],
    ) by {
        law_import_written(written[i].package, written[i].name, written[i].values);
    }
    lemma_section_given(
        "imports"@,
        0x5b,
        p,
        0x5d,
        import_texts(written),
        are_imports(written),
        rest,
        s,
    );
    reveal(imports);
}

/// An `effects` list, as it is written.
pub open spec fn effects_text(
    shortname: Seq<char>,
    name: Seq<char>,
    texts: Seq<Seq<u8>>,
) -> Seq<u8> {
    section_text(
        "effects"@,
        encode_utf8(shortname) + (seq![0x2eu8] + (encode_utf8(name) + (seq![0x20u8] + list_text(
            0x7b,
            texts,
            0x7d,
        )))),
    )
}

/// The effect type that stands before the effects.
proof fn lemma_effect_type_given(
    shortname: Seq<char>,
    name: Seq<char>,
    behind: Seq<u8>,
    s: StateView,
)
    requires
        is_ident(Initial::Lowercase, shortname),
        is_ident(Initial::Uppercase, name),
        behind.len() > 0,
        behind[0] == 0x7b,
        s.bytes == encode_utf8(shortname) + (seq![0x2eu8] + (encode_utf8(name) + (seq![0x20u8]
            + behind))),
        s.has_room((encode_utf8(shortname).len() + encode_utf8(name).len() + 2) as int),
    ensures
        lowercase_ident()(s) matches Ok((_, short, at_dot)) && uppercase_ident()(
            at_dot.skip(1),
        ) matches Ok((_, found, at_space)) && space0(1)(at_space) matches Ok((_, spaces, s2)) && {
            &&& short == shortname
            &&& at_dot.bytes.len() > 0
            &&& at_dot.bytes[0] == 0x2e
            &&& at_dot.has_room(1)
            &&& found == name
            &&& spaces.len() == 0
            &&& s2 == s.skip((encode_utf8(shortname).len() + encode_utf8(name).len() + 2) as int)
            &&& s2.bytes == behind
        },
{
    let short = encode_utf8(shortname);
    let word = encode_utf8(name);
    let behind_word = seq![0x20u8] + behind;
    let behind_short = seq![0x2eu8] + (word + behind_word);
    lemma_first_byte(shortname);
    lemma_first_byte(name);
    lemma_first_char_ascii('.', word + behind_word);
    law_ident_given(Initial::Lowercase, shortname, behind_short, s);
    let at_dot = s.skip(short.len() as int);
    assert(at_dot.bytes =~= behind_short);
    assert(at_dot.bytes[0] == 0x2e);
    let s1 = at_dot.skip(1);
    assert(s1.bytes =~= word + behind_word);
    lemma_ends_name(behind_word);
    law_ident_given(Initial::Uppercase, name, behind_word, s1);
    let at_space = s1.skip(word.len() as int);
    assert(at_space.bytes =~= behind_word);
    assert(at_space.bytes.skip(1) =~= behind);
    lemma_one_space(MIN_INDENT, at_space);
    assert(s.bytes.skip((short.len() + word.len() + 2) as int) =~= behind);
}

/// The keyword before the effect type.
proof fn lemma_effects_keyword_given(shortname: Seq<char>, behind: Seq<u8>, s: StateView)
    requires
        is_ident(Initial::Lowercase, shortname),
        s.bytes == seq![0x20u8] + (encode_utf8("effects"@) + (seq![0x20u8] + (encode_utf8(shortname)
            + behind))),
        s.has_room(encode_utf8("effects"@).len() as int + 2),
    ensures
        spaces_around_keyword(1, "effects"@)(s) matches Ok((_, (before, after), end)) && {
            &&& before.len() == 0
            &&& after.len() == 0
            &&& end == s.skip(encode_utf8("effects"@).len() as int + 2)
            &&& end.bytes == encode_utf8(shortname) + behind
        },
{
    let named = encode_utf8(shortname) + behind;
    lemma_keywords_not_blank();
    lemma_text_not_blank(shortname);
    lemma_first_byte(shortname);
    assert(named[0] == encode_utf8(shortname)[0]);
    lemma_keyword_between_spaces(1, "effects"@, named, s);
}

/// e.g. ` effects fx.Effect { putLine : Str, getLine : Str }`: the effects are just
/// those between the brackets, in their order, whatever their number, and their
/// type is the one that stands before them.
#[verifier::rlimit(40)]
pub proof fn law_effects_written<T, X>(
    type_annotation: Grammar<Located<T>, X>,
    shortname: Seq<char>,
    name: Seq<char>,
    names: Seq<Seq<char>>,
    annotations: Seq<Seq<u8>>,
    facts: Seq<spec_fn(T) -> bool>,
    rest: Seq<u8>,
    s: StateView,
)
    requires
        is_ident(Initial::Lowercase, shortname),
        is_ident(Initial::Uppercase, name),
        types_taken(type_annotation, names, annotations, facts),
        s.bytes == effects_text(shortname, name, typed_texts(names, annotations)) + rest,
        s.has_room(effects_text(shortname, name, typed_texts(names, annotations)).len() as int),
    ensures
        effects(type_annotation)(s) matches Ok((MadeProgress, found, end)) && found.effect_shortname
            == shortname && found.effect_type_name == name
            && found.spaces_before_effects_keyword.len() == 0
            && found.spaces_after_effects_keyword.len() == 0 && found.spaces_after_type_name.len()
            == 0 && holds(found.entries, typed_texts(names, annotations), are_typed(names, facts))
            && end == s.skip(
            effects_text(shortname, name, typed_texts(names, annotations)).len() as int,
        ) && end.bytes == rest,
{
    let texts = typed_texts(names, annotations);
    let list = list_text(0x7b, texts, 0x7d);
    let total = effects_text(shortname, name, texts).len() as int;
    let short = encode_utf8(shortname);
    let word = encode_utf8(name);
    let behind = seq![0x2eu8] + (word + (seq![0x20u8] + (list + rest)));
    assert(s.bytes =~= seq![0x20u8] + (encode_utf8("effects"@) + (seq![0x20u8] + (short
        + behind))));
    lemma_effects_keyword_given(shortname, behind, s);
    let s1 = s.skip(encode_utf8("effects"@).len() as int + 2);
    assert((list + rest)[0] == 0x7b);
    lemma_effect_type_given(shortname, name, list + rest, s1);
    let s3 = s1.skip((short.len() + word.len() + 2) as int);
    lemma_types_taken(type_annotation, names, annotations, facts);
    lemma_typed_ident_refused(type_annotation);
    law_list_given(
        0x7b,
        loc(typed_ident(type_annotation)),
        0x7d,
        MIN_INDENT,
        texts,
        are_typed(names, facts),
        rest,
        s3,
    );
    let front = encode_utf8("effects"@).len() as int + 2;
    let middle = (short.len() + word.len() + 2) as int;
    assert(total == front + middle + list.len());
    lemma_skip_twice(s, front, middle);
    lemma_skip_twice(s, front + middle, list.len() as int);
    law_effects_parts(type_annotation, s);
}

} // verus!
