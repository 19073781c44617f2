//! What holds of headers and module bodies as a whole.

use crate::ast::{
    AppHeaderView, CommentOrNewlineView, ImportsEntryView, PackagesView, SpacedView, ToView,
};
use crate::blankspace::{
    count_until, eat_spaces, space0, SpaceState, CARRIAGE_RETURN, HASH, NEWLINE, SPACE, TAB,
};
use crate::collection::{collection_e, list_entry};
use crate::combine::{loc, maybe, more, Grammar};
use crate::grammar::{
    app_header_help, exposes_modules, exposes_values, header, imports, imports_entry, module_def,
    module_defs, opt_exposed_values, packages, provides_to, provides_to_package,
    provides_without_to, requires_section, spaces_around_keyword, typed_ident, CLOSE_CURLY, COMMA,
    DOT, MIN_INDENT, OPEN_CURLY,
};
use crate::ident::{lowercase_ident, Initial};
use crate::names::{is_ident, law_ident_given, law_ident_parsed, law_ident_refused};
use crate::problem::{
    DefsError, EHeader, HeaderError, KeywordProblem, SpaceProblem, SyntaxError, ToProblem,
};
use crate::region::{Col, Located};
use crate::state::{MadeProgress, NoProgress, Progress, StateView};
use crate::steady::{
    alike, equal, import_as, in_one_line, lemma_imports_entry_steady, lemma_imports_steady,
    lemma_provides_to_steady, lemma_rest_of_line, lemma_text_in_one_line, moved, provides_as,
    same_list, same_to, section_as, steady,
};
use crate::unicode::{first_char, lemma_first_char_ascii, lemma_first_char_of_text};
use vstd::prelude::*;
use vstd::utf8::{encode_utf8, is_ascii_chars_encode_utf8};

verus! {

/// Whether `word` comes next, and fits the line.
pub open spec fn word_next(word: Seq<char>, s: StateView) -> bool {
    encode_utf8(word).is_prefix_of(s.bytes) && s.has_room(encode_utf8(word).len() as int)
}

/// A word that comes next starts with the character that comes next.
proof fn lemma_first_letter(word: Seq<char>, s: StateView)
    requires
        word.len() > 0,
    ensures
        word_next(word, s) ==> (first_char(s.bytes) matches Some((ch, _)) && ch == word[0]),
{
    if word_next(word, s) {
        let rest = s.bytes.skip(encode_utf8(word).len() as int);
        assert(s.bytes =~= encode_utf8(word) + rest);
        lemma_first_char_of_text(word, rest);
    }
}

/// No two of the words that a header can start with come next at once.
pub proof fn lemma_words_differ(s: StateView)
    ensures
        !(word_next("app"@, s) && word_next("platform"@, s)),
        !(word_next("app"@, s) && word_next("interface"@, s)),
        !(word_next("platform"@, s) && word_next("interface"@, s)),
{
    reveal_strlit("app");
    reveal_strlit("platform");
    reveal_strlit("interface");
    lemma_first_letter("app"@, s);
    lemma_first_letter("platform"@, s);
    lemma_first_letter("interface"@, s);
}

/// The first word of a header says which kind of module it is: an app, a
/// platform or an interface. Parsing a header always makes progress.
pub proof fn law_header_kind<S, XS, N, XN, E, XE, P, XP, T, XT>(
    string_literal: Grammar<S, XS>,
    package_name: Grammar<N, XN>,
    package_entry: Grammar<E, XE>,
    package_or_path: Grammar<P, XP>,
    type_annotation: Grammar<Located<T>, XT>,
    s: StateView,
)
    ensures
        header(string_literal, package_name, package_entry, package_or_path, type_annotation)(
            s,
        ) matches Ok((progress, module, _)) ==> {
            &&& progress == MadeProgress
            &&& module is App <==> word_next("app"@, s)
            &&& module is Platform <==> word_next("platform"@, s)
            &&& module is Interface <==> word_next("interface"@, s)
        },
{
    lemma_words_differ(s);
}

/// A header that fails leaves the input as it was. It fails without progress,
/// over a word, exactly where none of its first words comes next; else it fails
/// with progress, over one of its parts.
pub proof fn law_header_failure<S, XS, N, XN, E, XE, P, XP, T, XT>(
    string_literal: Grammar<S, XS>,
    package_name: Grammar<N, XN>,
    package_entry: Grammar<E, XE>,
    package_or_path: Grammar<P, XP>,
    type_annotation: Grammar<Located<T>, XT>,
    s: StateView,
)
    ensures
        ({
            let found = word_next("app"@, s) || word_next("platform"@, s) || word_next(
                "interface"@,
                s,
            );
            let result = header(
                string_literal,
                package_name,
                package_entry,
                package_or_path,
                type_annotation,
            )(s);
            &&& !found ==> result is Err
            &&& result matches Err((progress, e, s1)) ==> {
                &&& s1 == s
                &&& progress == NoProgress <==> !found
                &&& e is Syntax <==> !found
            }
        }),
{
    lemma_words_differ(s);
}

/// Where none of the words that a header can start with comes next, the
/// complaint is about the place where the longest of them should stand.
pub proof fn law_header_refused<S, XS, N, XN, E, XE, P, XP, T, XT>(
    string_literal: Grammar<S, XS>,
    package_name: Grammar<N, XN>,
    package_entry: Grammar<E, XE>,
    package_or_path: Grammar<P, XP>,
    type_annotation: Grammar<Located<T>, XT>,
    s: StateView,
)
    requires
        !encode_utf8("app"@).is_prefix_of(s.bytes),
        !encode_utf8("platform"@).is_prefix_of(s.bytes),
        !encode_utf8("interface"@).is_prefix_of(s.bytes),
    ensures
        ({
            let width = encode_utf8("interface"@).len() as int;
            header(string_literal, package_name, package_entry, package_or_path, type_annotation)(
                s,
            ) matches Err((NoProgress, HeaderError::Syntax(e), s1)) && e == s.unexpected(width).1
                && s1 == s
        }),
{
}

/// A module body is parsed to the end of the input, or not at all: then the
/// input is left as it was.
pub proof fn law_module_defs_whole<V, X>(def: Grammar<V, X>, s: StateView)
    ensures
        module_defs(def)(s) matches Ok((_, _, s1)) ==> s1.bytes.len() == 0,
        module_defs(def)(s) matches Err((_, _, s1)) ==> s1 == s,
{
}

/// A keyword between blank space that fails leaves the input as it was. Only
/// what follows the keyword is a failure with progress: up to there, something
/// else may stand in its place.
pub proof fn law_keyword_backtracks(min_indent: Col, keyword: Seq<char>, s: StateView)
    ensures
        match spaces_around_keyword(min_indent, keyword)(s) {
            Ok((progress, _, _)) => progress == MadeProgress,
            Err((progress, problem, s1)) => {
                &&& s1 == s
                &&& problem is Expectation ==> progress == NoProgress
                &&& problem is IndentBefore ==> progress == NoProgress
                &&& problem is IndentAfter ==> progress == MadeProgress
            },
        },
{
}

/// A keyword that starts a line too far to the left is refused, whatever it is.
pub proof fn law_keyword_indented(min_indent: Col, keyword: Seq<char>, s: StateView)
    requires
        eat_spaces(s.bytes, s.line, s.column, Seq::empty()) matches SpaceState::Good {
            bytes,
            row,
            col,
            lines: _,
        } && bytes.len() < s.bytes.len() && row != s.line && col < min_indent,
    ensures
        spaces_around_keyword(min_indent, keyword)(s) matches Err((NoProgress, problem, s1))
            && problem == KeywordProblem::IndentBefore(s.line, s.column) && s1 == s,
{
}

/// Whether a part of a header makes progress where it is there, and leaves the
/// input as it was where it fails.
pub open spec fn whole_or_nothing<V, X>(part: Grammar<V, X>) -> bool {
    forall|s: StateView|
        match #[trigger] part(s) {
            Ok((progress, _, _)) => progress == MadeProgress,
            Err((_, _, s1)) => s1 == s,
        }
}

/// A list of exposed values or modules is there as a whole, or the input is left
/// as it was.
pub proof fn law_exposes_whole()
    ensures
        whole_or_nothing(exposes_values()),
        whole_or_nothing(exposes_modules()),
{
    reveal(exposes_values);
    reveal(exposes_modules);
}

/// A `packages` list is there as a whole, or the input is left as it was.
pub proof fn law_packages_whole<P, X>(package_entry: Grammar<P, X>)
    ensures
        whole_or_nothing(packages(package_entry)),
{
    reveal(packages);
}

/// An `imports` list is there as a whole, or the input is left as it was.
pub proof fn law_imports_whole()
    ensures
        whole_or_nothing(imports()),
{
    reveal(imports);
}

/// A `provides` list is there as a whole, with what it is provided to, or the
/// input is left as it was.
pub proof fn law_provides_whole<P, X>(package_or_path: Grammar<P, X>)
    ensures
        whole_or_nothing(provides_without_to()),
        whole_or_nothing(provides_to(package_or_path)),
{
    reveal(provides_without_to);
    assert(whole_or_nothing(provides_without_to()));
    reveal(provides_to);
}

/// A `requires` list is there as a whole, or the input is left as it was.
pub proof fn law_requires_whole<T, X>(type_annotation: Grammar<Located<T>, X>)
    ensures
        whole_or_nothing(requires_section(type_annotation)),
{
    reveal(requires_section);
}

/// A complaint that a definition stands too far to the left.
pub open spec fn outdented<X>(e: DefsError<X>) -> bool {
    e matches DefsError::Syntax(SyntaxError::OutdentedTooFar(_, _))
}

proof fn lemma_more_defs_not_outdented<V, X>(
    def: Grammar<V, X>,
    found: Seq<Located<SpacedView<V>>>,
    s: StateView,
)
    ensures
        more(module_def(def), found, s) matches Err((_, e, _)) ==> !outdented(e),
    decreases s.bytes.len(),
{
    if let Ok((_, a, s1)) = module_def(def)(s) {
        if s1.bytes.len() < s.bytes.len() {
            lemma_more_defs_not_outdented(def, found.push(a), s1);
        }
    }
}

/// A definition may start in any column: no module body is refused because one
/// stands too far to the left.
pub proof fn law_defs_not_outdented<V, X>(def: Grammar<V, X>, s: StateView)
    ensures
        module_defs(def)(s) matches Err((_, e, _)) ==> !outdented(e),
{
    if let Ok((_, a, s1)) = module_def(def)(s) {
        lemma_more_defs_not_outdented(def, seq![a], s1);
    }
}

/// A name with its type may go over any lines: none is refused because its colon
/// or its type stands too far to the left.
pub proof fn law_typed_ident_not_outdented<T, X>(
    type_annotation: Grammar<Located<T>, X>,
    s: StateView,
)
    ensures
        typed_ident(type_annotation)(s) matches Err((_, e, _)) ==> !(e is IndentHasType)
            && !(e is IndentType),
{
}

/// An import names a package exactly where it starts with an identifier in
/// lowercase.
pub proof fn law_import_of_package(s: StateView)
    ensures
        imports_entry()(s) matches Ok((_, entry, _)) ==> (entry is Package <==> lowercase_ident()(
            s,
        ) is Ok),
{
    law_ident_parsed(Initial::Lowercase, s);
}

/// The name of a package and a dot before an import of a module make it an import
/// of that module from that package, and change nothing else.
pub proof fn law_import_from_package(name: Seq<char>, s: StateView, t: StateView)
    requires
        is_ident(Initial::Lowercase, name),
        s.bytes == encode_utf8(name) + (seq![DOT] + t.bytes),
        s.has_room(encode_utf8(name).len() as int + 1),
        t == s.skip(encode_utf8(name).len() as int + 1),
    ensures
        imports_entry()(t) matches Ok((_, ImportsEntryView::Module(m, values), end)) ==> {
            &&& imports_entry()(s) matches Ok((MadeProgress, entry, end1))
            &&& entry == ImportsEntryView::Package(name, m, values)
            &&& end1 == end
        },
{
    lemma_first_char_ascii('.', t.bytes);
    law_ident_given(Initial::Lowercase, name, seq![DOT] + t.bytes, s);
    let s1 = s.skip(encode_utf8(name).len() as int);
    assert(s1.bytes =~= seq![DOT] + t.bytes);
    assert(s1.skip(1) == t);
}

/// The same of an import of a module that stands elsewhere in the line: from the
/// same column, with the name of a package and a dot before it, it is an import
/// of that module from that package. The values that it exposes are the same up
/// to places, and parsing stops before the same text. The line fits the columns
/// that can be counted.
pub proof fn law_import_from_package_elsewhere(name: Seq<char>, s: StateView, t: StateView)
    requires
        is_ident(Initial::Lowercase, name),
        s.bytes == encode_utf8(name) + (seq![DOT] + t.bytes),
        s.line == t.line,
        s.column == t.column,
        s.has_room(count_until(s.bytes, NEWLINE) as int),
    ensures
        imports_entry()(t) matches Ok((_, ImportsEntryView::Module(m, values), end)) ==> {
            &&& imports_entry()(s) matches Ok(
                (MadeProgress, ImportsEntryView::Package(package, m1, values1), end1),
            )
            &&& package == name
            &&& m1 == m
            &&& same_list(equal(), values, values1)
            &&& end1.bytes == end.bytes
        },
{
    let width = encode_utf8(name).len() as int + 1;
    let behind = s.skip(width);
    assert(behind.bytes =~= t.bytes);
    assert(in_one_line(s.bytes, width)) by {
        assert forall|i: int| 0 <= i < name.len() implies #[trigger] name[i] != '\n' by {
            if i > 0 {
                assert(name.skip(1)[i - 1] == name[i]);
            }
        }
        lemma_text_in_one_line(name, seq![DOT] + t.bytes);
    }
    lemma_rest_of_line(s.bytes, width);
    lemma_imports_entry_steady();
    reveal(steady);
    assert(moved(t.line, width, t, behind));
    assert(alike(
        t.line,
        width,
        import_as(),
        imports_entry()(t),
        imports_entry()(behind),
    ));
    law_import_from_package(name, s, behind);
}

/// An import exposes values only where a dot follows the name of its module.
pub proof fn law_import_without_dot(s: StateView)
    requires
        !(s.bytes.len() > 0 && s.bytes[0] == DOT),
    ensures
        opt_exposed_values()(s) matches Ok((NoProgress, None, s1)) && s1 == s,
{
}

/// An app may leave out its `packages`: then the header holds none. Where it
/// starts such a list, the list must be right.
pub proof fn law_app_packages_optional<S, XS, E, XE, P, XP, T>(
    string_literal: Grammar<S, XS>,
    package_entry: Grammar<E, XE>,
    package_or_path: Grammar<P, XP>,
    s: StateView,
    behind_name: StateView,
)
    requires
        space0(MIN_INDENT)(s) matches Ok((_, _, s1)) && string_literal(s1) matches Ok((_, _, s2))
            && s2 == behind_name,
    ensures
        packages(package_entry)(behind_name) matches Err((NoProgress, _, _)) ==> (
        app_header_help::<S, XS, E, XE, P, XP, T>(string_literal, package_entry, package_or_path)(
            s,
        ) matches Ok((_, header, _)) ==> {
            &&& header.packages.len() == 0
            &&& header.before_packages.len() == 0
            &&& header.after_packages.len() == 0
        }),
        packages(package_entry)(behind_name) matches Err((MadeProgress, e, end)) ==> (
        app_header_help::<S, XS, E, XE, P, XP, T>(string_literal, package_entry, package_or_path)(
            s,
        ) matches Err((MadeProgress, problem, s3)) && problem == EHeader::<XS, T>::Packages(
            e,
            end.line,
            end.column,
        ) && s3 == end),
{
    reveal(app_header_help);
}

/// An app may leave out its `imports`: then the header holds none. Where it
/// starts such a list, the list must be right.
pub proof fn law_app_imports_optional<S, XS, E, XE, P, XP, T>(
    string_literal: Grammar<S, XS>,
    package_entry: Grammar<E, XE>,
    package_or_path: Grammar<P, XP>,
    s: StateView,
    behind_packages: StateView,
)
    requires
        space0(MIN_INDENT)(s) matches Ok((_, _, s1)) && string_literal(s1) matches Ok((_, _, s2))
            && maybe(packages(package_entry))(s2) matches Ok((_, _, s3)) && s3 == behind_packages,
    ensures
        imports()(behind_packages) matches Err((NoProgress, _, _)) ==> (app_header_help::<
            S,
            XS,
            E,
            XE,
            P,
            XP,
            T,
        >(string_literal, package_entry, package_or_path)(s) matches Ok((_, header, _)) ==> {
            &&& header.imports.len() == 0
            &&& header.before_imports.len() == 0
            &&& header.after_imports.len() == 0
        }),
        imports()(behind_packages) matches Err((MadeProgress, e, end)) ==> (app_header_help::<
            S,
            XS,
            E,
            XE,
            P,
            XP,
            T,
        >(string_literal, package_entry, package_or_path)(s) matches Err(
            (MadeProgress, problem, s4),
        ) && problem == EHeader::<XS, T>::Imports(e, end.line, end.column) && s4 == end),
{
    reveal(app_header_help);
}

/// Bytes that blank space starts with.
pub open spec fn starts_blank(bytes: Seq<u8>) -> bool {
    bytes.len() > 0 && (bytes[0] == SPACE || bytes[0] == NEWLINE || bytes[0] == CARRIAGE_RETURN
        || bytes[0] == TAB || bytes[0] == HASH)
}

/// Where no blank space comes next, none is parsed.
pub proof fn lemma_no_space(min_indent: Col, s: StateView)
    requires
        !starts_blank(s.bytes),
    ensures
        space0(min_indent)(s) == Ok::<_, (Progress, SpaceProblem, StateView)>(
            (NoProgress, Seq::<CommentOrNewlineView>::empty(), s),
        ),
{
}

/// A single space is parsed as such.
pub proof fn lemma_one_space(min_indent: Col, s: StateView)
    requires
        s.bytes.len() > 0,
        s.bytes[0] == SPACE,
        s.has_room(1),
        !starts_blank(s.bytes.skip(1)),
    ensures
        space0(min_indent)(s) == Ok::<_, (Progress, SpaceProblem, StateView)>(
            (MadeProgress, Seq::<CommentOrNewlineView>::empty(), s.skip(1)),
        ),
{
    reveal_with_fuel(eat_spaces, 2);
}

/// A keyword with a space on either side is parsed as such.
pub proof fn lemma_keyword_between_spaces(
    min_indent: Col,
    keyword: Seq<char>,
    rest: Seq<u8>,
    s: StateView,
)
    requires
        keyword.len() > 0,
        s.bytes == seq![SPACE] + (encode_utf8(keyword) + (seq![SPACE] + rest)),
        s.has_room(encode_utf8(keyword).len() as int + 2),
        !starts_blank(encode_utf8(keyword)),
        !starts_blank(rest),
    ensures
        spaces_around_keyword(min_indent, keyword)(s) == Ok::<
            _,
            (Progress, KeywordProblem, StateView),
        >(
            (
                MadeProgress,
                (Seq::<CommentOrNewlineView>::empty(), Seq::<CommentOrNewlineView>::empty()),
                s.skip(encode_utf8(keyword).len() as int + 2),
            ),
        ),
        s.skip(encode_utf8(keyword).len() as int + 2).bytes == rest,
{
    let word = encode_utf8(keyword);
    lemma_first_char_of_text(keyword, Seq::empty());
    let s1 = s.skip(1);
    assert(s1.bytes =~= word + (seq![SPACE] + rest));
    assert(s1.bytes[0] == word[0]);
    lemma_one_space(min_indent, s);
    assert(word.is_prefix_of(s1.bytes)) by {
        assert(s1.bytes.take(word.len() as int) =~= word);
    }
    let s2 = s1.skip(word.len() as int);
    assert(s2.bytes =~= seq![SPACE] + rest);
    assert(s2.bytes.skip(1) =~= rest);
    lemma_one_space(min_indent, s2);
    assert(s.skip(word.len() as int + 2).bytes =~= rest);
    assert(s2.skip(1) == s.skip(word.len() as int + 2));
}

/// Brackets with nothing between them are parsed as an empty list.
proof fn lemma_empty_list<A, E>(
    opening: u8,
    p: Grammar<Located<A>, E>,
    delimiter: u8,
    closing: u8,
    min_indent: Col,
    s: StateView,
)
    requires
        s.bytes.len() >= 2,
        s.bytes[0] == opening,
        s.bytes[1] == closing,
        !starts_blank(seq![closing]),
        s.has_room(2),
        p(s.skip(1)) matches Err((NoProgress, _, _)),
    ensures
        collection_e(opening, p, delimiter, closing, min_indent)(s) matches Ok(
            (MadeProgress, list, end),
        ) && list == Seq::<Located<SpacedView<A>>>::empty() && end == s.skip(2),
{
    reveal(collection_e);
    let s1 = s.skip(1);
    assert(seq![closing][0] == closing);
    assert(s1.bytes[0] == closing);
    lemma_no_space(min_indent, s1);
    assert(list_entry(p, min_indent)(s1) matches Err((NoProgress, _, _)));
    assert(s1.bytes.skip(1) =~= s.bytes.skip(2));
}

/// The bytes of an empty `packages` list.
proof fn lemma_empty_packages_text()
    ensures
        encode_utf8(" packages {}"@) == seq![SPACE] + (encode_utf8("packages"@) + (seq![SPACE]
            + seq![OPEN_CURLY, CLOSE_CURLY])),
        "packages"@.len() > 0,
        encode_utf8("packages"@).len() == 8,
        encode_utf8(" packages {"@).len() == 11,
        encode_utf8(" packages {}"@).len() == 12,
        !starts_blank(encode_utf8("packages"@)),
{
    reveal_strlit(" packages {}");
    reveal_strlit(" packages {");
    reveal_strlit("packages");
    is_ascii_chars_encode_utf8(" packages {}"@);
    is_ascii_chars_encode_utf8(" packages {"@);
    is_ascii_chars_encode_utf8("packages"@);
    let keyword = encode_utf8("packages"@);
    assert(keyword[0] == "packages"@[0] as u8);
    let text = seq![SPACE] + (keyword + (seq![SPACE] + seq![OPEN_CURLY, CLOSE_CURLY]));
    assert forall|i: int| 0 <= i < 12 implies encode_utf8(" packages {}"@)[i] == text[i] by {
        assert(encode_utf8(" packages {}"@)[i] == " packages {}"@[i] as u8);
        if 1 <= i < 9 {
            assert(keyword[i - 1] == "packages"@[i - 1] as u8);
        }
    }
    assert(encode_utf8(" packages {}"@) =~= text);
}

/// An empty `packages` list is parsed as one: there are no packages, and nothing
/// but the list is taken.
pub proof fn law_empty_packages<P, X>(package_entry: Grammar<P, X>, rest: Seq<u8>, s: StateView)
    requires
        s.bytes == encode_utf8(" packages {}"@) + rest,
        s.has_room(encode_utf8(" packages {}"@).len() as int),
        package_entry(s.skip(encode_utf8(" packages {"@).len() as int)) matches Err(
            (NoProgress, _, _),
        ),
    ensures
        packages(package_entry)(s) matches Ok((MadeProgress, found, end)) && found == (
        PackagesView::<P> {
            entries: Seq::empty(),
            before_packages_keyword: Seq::empty(),
            after_packages_keyword: Seq::empty(),
        }) && end == s.skip(encode_utf8(" packages {}"@).len() as int) && end.bytes == rest,
{
    lemma_empty_packages_text();
    let brackets = seq![OPEN_CURLY, CLOSE_CURLY];
    let keyword = encode_utf8("packages"@);
    assert(s.bytes =~= seq![SPACE] + (keyword + (seq![SPACE] + (brackets + rest))));
    lemma_keyword_between_spaces(MIN_INDENT, "packages"@, brackets + rest, s);
    let s1 = s.skip(10);
    assert(s1.skip(1) == s.skip(11)) by {
        assert(s1.bytes.skip(1) =~= s.bytes.skip(11));
    }
    lemma_empty_list(OPEN_CURLY, loc(package_entry), COMMA, CLOSE_CURLY, MIN_INDENT, s1);
    assert(s1.bytes.skip(2) =~= rest);
    assert(s.bytes.skip(12) =~= rest);
    reveal(packages);
}

/// Where the keyword of another list comes next, there is no `packages` list, and
/// something else may stand in its place.
pub proof fn law_packages_absent<P, X>(
    package_entry: Grammar<P, X>,
    word: Seq<char>,
    rest: Seq<u8>,
    s: StateView,
)
    requires
        word == "imports"@ || word == "provides"@,
        s.bytes == seq![SPACE] + (encode_utf8(word) + rest),
    ensures
        packages(package_entry)(s) matches Err((NoProgress, _, s1)) && s1 == s,
{
    reveal(packages);
    reveal_strlit("imports");
    reveal_strlit("provides");
    reveal_strlit("packages");
    is_ascii_chars_encode_utf8("imports"@);
    is_ascii_chars_encode_utf8("provides"@);
    is_ascii_chars_encode_utf8("packages"@);
    let bytes = encode_utf8(word);
    let keyword = encode_utf8("packages"@);
    let s1 = s.skip(1);
    assert(bytes[0] == word[0] as u8);
    assert(bytes[1] == word[1] as u8);
    assert(s1.bytes =~= bytes + rest);
    if s.has_room(1) {
        lemma_one_space(MIN_INDENT, s);
        assert(!keyword.is_prefix_of(s1.bytes)) by {
            assert(keyword[1] == "packages"@[1] as u8);
            assert(keyword[0] == "packages"@[0] as u8);
            if keyword.is_prefix_of(s1.bytes) {
                assert(s1.bytes.take(keyword.len() as int)[1] == keyword[1]);
                assert(s1.bytes.take(keyword.len() as int)[0] == keyword[0]);
            }
        }
    } else {
        assert(space0(MIN_INDENT)(s) is Err);
    }
}

/// Where a `provides` list comes next, there is no `imports` list, and something
/// else may stand in its place.
pub proof fn law_imports_absent(rest: Seq<u8>, s: StateView)
    requires
        s.bytes == seq![SPACE] + (encode_utf8("provides"@) + rest),
    ensures
        imports()(s) matches Err((NoProgress, _, s1)) && s1 == s,
{
    reveal(imports);
    reveal_strlit("imports");
    reveal_strlit("provides");
    is_ascii_chars_encode_utf8("imports"@);
    is_ascii_chars_encode_utf8("provides"@);
    let bytes = encode_utf8("provides"@);
    let keyword = encode_utf8("imports"@);
    let s1 = s.skip(1);
    assert(bytes[0] == "provides"@[0] as u8);
    assert(s1.bytes =~= bytes + rest);
    if s.has_room(1) {
        lemma_one_space(MIN_INDENT, s);
        assert(!keyword.is_prefix_of(s1.bytes)) by {
            assert(keyword[0] == "imports"@[0] as u8);
            if keyword.is_prefix_of(s1.bytes) {
                assert(s1.bytes.take(keyword.len() as int)[0] == keyword[0]);
            }
        }
    } else {
        assert(space0(MIN_INDENT)(s) is Err);
    }
}

/// Whether two headers of apps are the same up to places. `same` compares the
/// packages that the apps are provided to.
pub open spec fn same_app<S, E, P>(
    same: spec_fn(P, P) -> bool,
    x: AppHeaderView<S, E, P>,
    y: AppHeaderView<S, E, P>,
) -> bool {
    &&& x.name.value == y.name.value
    &&& same_list(equal(), x.packages, y.packages)
    &&& same_list(import_as(), x.imports, y.imports)
    &&& same_list(equal(), x.provides, y.provides)
    &&& same_to(same, x.to.value, y.to.value)
    &&& x.after_app_keyword == y.after_app_keyword
    &&& x.before_packages == y.before_packages
    &&& x.after_packages == y.after_packages
    &&& x.before_imports == y.before_imports
    &&& x.after_imports == y.after_imports
    &&& x.before_provides == y.before_provides
    &&& x.after_provides == y.after_provides
    &&& x.before_to == y.before_to
    &&& x.after_to == y.after_to
}

/// To leave out the `packages` of an app means the same as to give an empty list:
/// the header is the same up to places, and parsing stops before the same text.
/// `s` is where the header without the list goes on behind its first word, and
/// `t` is where the header with it does; `s1` and `t1` are the places behind the
/// names of the two. The line that goes on there fits the columns that can be
/// counted.
pub proof fn law_packages_left_out<S, XS, E, XE, P, XP, T>(
    string_literal: Grammar<S, XS>,
    package_entry: Grammar<E, XE>,
    package_or_path: Grammar<P, XP>,
    same: spec_fn(P, P) -> bool,
    s: StateView,
    s1: StateView,
    t: StateView,
    t1: StateView,
)
    requires
        steady(package_or_path, same),
        ({
            &&& space0(MIN_INDENT)(s) matches Ok((_, s_spaces, s0))
            &&& string_literal(s0) matches Ok((_, s_name, s_end))
            &&& space0(MIN_INDENT)(t) matches Ok((_, t_spaces, t0))
            &&& string_literal(t0) matches Ok((_, t_name, t_end))
            &&& s_spaces == t_spaces
            &&& s_name == t_name
            &&& s_end == s1
            &&& t_end == t1
        }),
        t1.bytes == encode_utf8(" packages {}"@) + s1.bytes,
        t1.line == s1.line,
        t1.column == s1.column,
        t1.has_room(count_until(t1.bytes, NEWLINE) as int),
        packages(package_entry)(s1) matches Err((NoProgress, _, _)),
        package_entry(t1.skip(encode_utf8(" packages {"@).len() as int)) matches Err(
            (NoProgress, _, _),
        ),
    ensures
        app_header_help::<S, XS, E, XE, P, XP, T>(string_literal, package_entry, package_or_path)(
            s,
        ) matches Ok((_, x, s_end)) ==> {
            &&& app_header_help::<S, XS, E, XE, P, XP, T>(
                string_literal,
                package_entry,
                package_or_path,
            )(t) matches Ok((_, y, t_end))
            &&& same_app(same, x, y)
            &&& t_end.bytes == s_end.bytes
        },
{
    reveal(app_header_help);
    let width = encode_utf8(" packages {}"@).len() as int;
    assert(in_one_line(t1.bytes, width)) by {
        reveal_strlit(" packages {}");
        lemma_text_in_one_line(" packages {}"@, s1.bytes);
    }
    lemma_rest_of_line(t1.bytes, width);
    assert(t1.bytes.skip(width) =~= s1.bytes);
    law_empty_packages(package_entry, s1.bytes, t1);
    let t2 = t1.skip(width);
    lemma_imports_steady();
    lemma_provides_to_steady(package_or_path, same);
    reveal(steady);
    assert(moved(s1.line, width, s1, t2));
    let list = imports();
    assert(alike(s1.line, width, section_as(import_as()), list(s1), list(t2)));
    let s3 = maybe(list)(s1)->Ok_0.2;
    let t3 = maybe(list)(t2)->Ok_0.2;
    if maybe(list)(s1) is Ok {
        assert(moved(s1.line, width, s3, t3));
        let provides = provides_to(package_or_path);
        assert(alike(s1.line, width, provides_as(same), provides(s3), provides(t3)));
    }
}

/// Whether `p` takes `text`, wherever it stands, as `value`.
pub open spec fn reads<A, X>(p: Grammar<A, X>, text: Seq<u8>, value: A) -> bool {
    forall|s: StateView|
        text.is_prefix_of(s.bytes) && s.has_room(text.len() as int) ==> (#[trigger] p(s) matches Ok(
            (_, a, s1),
        ) && a == value && s1 == s.skip(text.len() as int))
}

/// Whether `p` fails without progress where `byte` comes next.
pub open spec fn refuses<A, X>(p: Grammar<A, X>, byte: u8) -> bool {
    forall|s: StateView|
        s.bytes.len() > 0 && s.bytes[0] == byte ==> (#[trigger] p(s) matches Err(
            (NoProgress, _, _),
        ))
}

/// The same of two texts: a name, the empty list in one of them, and another list
/// of the header. All that is asked of the terms is that the name is read, that
/// no package starts with a closing bracket, and that a package or path does not
/// depend on its column.
pub proof fn law_packages_left_out_of_text<S, XS, E, XE, P, XP, T>(
    string_literal: Grammar<S, XS>,
    package_entry: Grammar<E, XE>,
    package_or_path: Grammar<P, XP>,
    same: spec_fn(P, P) -> bool,
    quoted: Seq<u8>,
    name: S,
    word: Seq<char>,
    rest: Seq<u8>,
    s: StateView,
    t: StateView,
)
    requires
        reads(string_literal, quoted, name),
        refuses(package_entry, CLOSE_CURLY),
        steady(package_or_path, same),
        quoted.len() > 0,
        !starts_blank(quoted),
        in_one_line(quoted, quoted.len() as int),
        word == "imports"@ || word == "provides"@,
        s.bytes == seq![SPACE] + (quoted + (seq![SPACE] + (encode_utf8(word) + rest))),
        t.bytes == seq![SPACE] + (quoted + (encode_utf8(" packages {}"@) + (seq![SPACE] + (
        encode_utf8(word) + rest)))),
        s.line == t.line,
        s.column == t.column,
        t.has_room(count_until(t.bytes, NEWLINE) as int),
    ensures
        app_header_help::<S, XS, E, XE, P, XP, T>(string_literal, package_entry, package_or_path)(
            s,
        ) matches Ok((_, x, s_end)) ==> {
            &&& app_header_help::<S, XS, E, XE, P, XP, T>(
                string_literal,
                package_entry,
                package_or_path,
            )(t) matches Ok((_, y, t_end))
            &&& same_app(same, x, y)
            &&& t_end.bytes == s_end.bytes
        },
{
    let len = quoted.len() as int;
    let behind = seq![SPACE] + (encode_utf8(word) + rest);
    let list = encode_utf8(" packages {}"@);
    assert(t.bytes[0] == SPACE);
    assert(in_one_line(t.bytes, len + 1)) by {
        assert forall|i: int| 0 <= i < len + 1 implies #[trigger] t.bytes[i] != NEWLINE by {
            if i > 0 {
                assert(t.bytes[i] == quoted[i - 1]);
            }
        }
    }
    lemma_rest_of_line(t.bytes, len + 1);
    let s0 = s.skip(1);
    let t0 = t.skip(1);
    assert(s0.bytes =~= quoted + behind);
    assert(t0.bytes =~= quoted + (list + behind));
    assert(s0.bytes[0] == quoted[0] && t0.bytes[0] == quoted[0]);
    lemma_one_space(MIN_INDENT, s);
    lemma_one_space(MIN_INDENT, t);
    assert(quoted.is_prefix_of(s0.bytes) && quoted.is_prefix_of(t0.bytes)) by {
        assert(s0.bytes.subrange(0, len) =~= quoted);
        assert(t0.bytes.subrange(0, len) =~= quoted);
    }
    let s1 = s0.skip(len);
    let t1 = t0.skip(len);
    assert(string_literal(s0) matches Ok((_, a, end)) && a == name && end == s1);
    assert(string_literal(t0) matches Ok((_, a, end)) && a == name && end == t1);
    assert(s1.bytes =~= behind);
    assert(t1.bytes =~= list + s1.bytes);
    assert(t1.bytes =~= t.bytes.skip(len + 1));
    law_packages_absent(package_entry, word, rest, s1);
    let t2 = t1.skip(encode_utf8(" packages {"@).len() as int);
    assert(t2.bytes.len() > 0 && t2.bytes[0] == CLOSE_CURLY) by {
        reveal_strlit(" packages {}");
        reveal_strlit(" packages {");
        is_ascii_chars_encode_utf8(" packages {}"@);
        is_ascii_chars_encode_utf8(" packages {"@);
        assert(list[11] == " packages {}"@[11] as u8);
        assert(t2.bytes[0] == t1.bytes[11]);
    }
    assert(package_entry(t2) matches Err((NoProgress, _, _)));
    law_packages_left_out::<S, XS, E, XE, P, XP, T>(
        string_literal,
        package_entry,
        package_or_path,
        same,
        s,
        s1,
        t,
        t1,
    );
}

/// What an app is provided to is an existing package where an identifier in
/// lowercase stands there, and else a new one. It fails where both fail.
pub proof fn law_provides_to_package<P, X>(package_or_path: Grammar<P, X>, s: StateView)
    ensures
        lowercase_ident()(s) matches Ok((progress, name, s1)) ==> provides_to_package(
            package_or_path,
        )(s) == Ok::<_, (Progress, ToProblem<X>, StateView)>(
            (progress, ToView::<P>::ExistingPackage(name), s1),
        ),
        lowercase_ident()(s) matches Err((NoProgress, _, _)) ==> (package_or_path(s) matches Ok(
            (progress, package, s1),
        ) ==> provides_to_package(package_or_path)(s) == Ok::<
            _,
            (Progress, ToProblem<X>, StateView),
        >((progress, ToView::<P>::NewPackage(package), s1))),
        lowercase_ident()(s) is Err && package_or_path(s) is Err ==> provides_to_package(
            package_or_path,
        )(s) is Err,
{
    law_ident_refused(Initial::Lowercase, s);
}

} // verus!
