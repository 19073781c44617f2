//! Parsing does not depend on the column that it starts in, as long as every
//! column can be counted: the same bytes further to the right are parsed to the
//! same values, up to their places.

use crate::ast::{
    CommentOrNewlineView, ImportsEntryView, NamesView, ProvidesToView, SpacedView, SpacesView,
    ToView,
};
use crate::blankspace::{
    comment, count_until, eat_spaces, lemma_count_until, space0, SpaceState, CARRIAGE_RETURN, HASH,
    NEWLINE, SPACE, TAB,
};
use crate::collection::{bracketed, collection_e, list_entry, list_mark, list_space};
use crate::combine::{and, loc, map_err, more, more_delimited, sep_by0, zero_or_more, Grammar};
use crate::grammar::{
    exposes_entry, imports, imports_entry, module_name, module_name_rest, opt_exposed_values,
    opt_shortname, provides_to, provides_to_package, provides_without_to, spaces_around_keyword,
    CLOSE_CURLY, CLOSE_SQUARE, COMMA, DOT, MIN_INDENT, OPEN_CURLY, OPEN_SQUARE,
};
use crate::ident::{
    continues_ident, ident, ident_rest, lemma_dot_width, lemma_peek_width, lowercase_ident,
    unqualified_ident, Initial,
};
use crate::lex::peek;
use crate::problem::ListProblem;
use crate::region::{Col, Located, Row};
use crate::state::{Outcome, StateView};
use crate::unicode::{
    is_uppercase_letter, lemma_first_char_no_newline, lemma_first_char_of_text,
};
use vstd::prelude::*;
use vstd::utf8::{encode_utf8, is_ascii_chars_encode_utf8};

verus! {

/// How far to the right a place in line `row` is moved: by `offset`, where that
/// is line `line`.
pub open spec fn shift(line: Row, offset: int, row: Row) -> int {
    if row == line {
        offset
    } else {
        0
    }
}

/// Whether `b` stands before the same bytes as `a`, in the same line, but
/// `offset` columns further to the right in line `line`. Every column of what is
/// left of that line can be counted.
pub open spec fn moved(line: Row, offset: int, a: StateView, b: StateView) -> bool {
    &&& offset >= 0
    &&& a.bytes == b.bytes
    &&& line <= a.line
    &&& a.line == b.line
    &&& b.column == a.column + shift(line, offset, a.line)
    &&& a.line == line ==> b.has_room(count_until(b.bytes, NEWLINE) as int)
}

/// Whether none of the first `width` bytes is a newline.
pub open spec fn in_one_line(bytes: Seq<u8>, width: int) -> bool {
    &&& 0 <= width <= bytes.len()
    &&& forall|i: int| 0 <= i < width ==> #[trigger] bytes[i] != NEWLINE
}

/// What is left of a line behind some of its bytes.
pub proof fn lemma_rest_of_line(bytes: Seq<u8>, width: int)
    requires
        in_one_line(bytes, width),
    ensures
        count_until(bytes, NEWLINE) == width + count_until(bytes.skip(width), NEWLINE),
    decreases width,
{
    if width == 0 {
        assert(bytes.skip(0) =~= bytes);
    } else {
        assert(bytes[0] != NEWLINE);
        assert(in_one_line(bytes.skip(1), width - 1)) by {
            assert forall|i: int| 0 <= i < width - 1 implies #[trigger] bytes.skip(1)[i]
                != NEWLINE by {
                assert(bytes[i + 1] != NEWLINE);
            }
        }
        lemma_rest_of_line(bytes.skip(1), width - 1);
        assert(bytes.skip(1).skip(width - 1) =~= bytes.skip(width));
    }
}

/// What does not hold a newline can be taken from both places, or from neither.
pub proof fn lemma_moved_skip(line: Row, offset: int, a: StateView, b: StateView, width: int)
    requires
        moved(line, offset, a, b),
        in_one_line(a.bytes, width),
    ensures
        a.has_room(width) == b.has_room(width),
        a.has_room(width) ==> moved(line, offset, a.skip(width), b.skip(width)),
{
    lemma_rest_of_line(a.bytes, width);
}

/// Text without newlines stands in one line, whatever follows.
pub proof fn lemma_text_in_one_line(text: Seq<char>, rest: Seq<u8>)
    requires
        forall|i: int| 0 <= i < text.len() ==> #[trigger] text[i] != '\n',
    ensures
        in_one_line(encode_utf8(text) + rest, encode_utf8(text).len() as int),
    decreases text.len(),
{
    if text.len() > 0 {
        let bytes = encode_utf8(text) + rest;
        let width = encode_utf8(seq![text[0]]).len() as int;
        lemma_first_char_of_text(text, rest);
        lemma_first_char_no_newline(bytes);
        assert forall|i: int| 0 <= i < text.skip(1).len() implies #[trigger] text.skip(1)[i]
            != '\n' by {
            assert(text[i + 1] != '\n');
        }
        lemma_text_in_one_line(text.skip(1), rest);
        assert forall|i: int| 0 <= i < encode_utf8(text).len() implies #[trigger] bytes[i]
            != NEWLINE by {
            if i >= width {
                assert(bytes[i] == bytes.skip(width)[i - width]);
            }
        }
    }
}

/// The keywords of an app's header stand in one line.
proof fn lemma_keywords_in_one_line()
    ensures
        in_one_line(encode_utf8("imports"@), encode_utf8("imports"@).len() as int),
        in_one_line(encode_utf8("provides"@), encode_utf8("provides"@).len() as int),
        in_one_line(encode_utf8("to"@), encode_utf8("to"@).len() as int),
{
    reveal_strlit("imports");
    reveal_strlit("provides");
    reveal_strlit("to");
    is_ascii_chars_encode_utf8("imports"@);
    is_ascii_chars_encode_utf8("provides"@);
    is_ascii_chars_encode_utf8("to"@);
}

/// A character other than a newline stands in one line.
proof fn lemma_char_in_one_line(bytes: Seq<u8>)
    ensures
        peek(bytes) matches Ok((ch, width)) ==> (ch != '\n' ==> in_one_line(bytes, width)),
{
    lemma_peek_width(bytes);
    lemma_first_char_no_newline(bytes);
}

/// Whether two outcomes agree: both are failures, or both give the `same`
/// value. They make the same progress and stop before the same bytes.
pub open spec fn alike<A, X>(
    line: Row,
    offset: int,
    same: spec_fn(A, A) -> bool,
    left: Outcome<A, X>,
    right: Outcome<A, X>,
) -> bool {
    match (left, right) {
        (Ok((p, x, a)), Ok((q, y, b))) => p == q && same(x, y) && moved(line, offset, a, b),
        (Err((p, _, a)), Err((q, _, b))) => p == q && moved(line, offset, a, b),
        _ => false,
    }
}

/// Whether what `p` gives does not depend on the column that it starts in.
#[verifier::opaque]
pub open spec fn steady<A, X>(p: Grammar<A, X>, same: spec_fn(A, A) -> bool) -> bool {
    forall|line: Row, offset: int, a: StateView, b: StateView|
        #![trigger moved(line, offset, a, b), p(a)]
        moved(line, offset, a, b) ==> alike(line, offset, same, p(a), p(b))
}

/// Values are the same where they are equal.
pub open spec fn equal<A>() -> spec_fn(A, A) -> bool {
    |x: A, y: A| x == y
}

/// Values with blank space around them are the same where the values are, and
/// the blank space is equal.
pub open spec fn same_spaced<V>(
    same: spec_fn(V, V) -> bool,
    x: SpacedView<V>,
    y: SpacedView<V>,
) -> bool
    decreases x,
{
    match (x, y) {
        (SpacedView::Item(v), SpacedView::Item(w)) => same(v, w),
        (SpacedView::SpaceBefore(v, left), SpacedView::SpaceBefore(w, right)) => {
            &&& left == right
            &&& same_spaced(same, *v, *w)
        },
        (SpacedView::SpaceAfter(v, left), SpacedView::SpaceAfter(w, right)) => {
            &&& left == right
            &&& same_spaced(same, *v, *w)
        },
        _ => false,
    }
}

/// Lists are the same, up to places, where their values are.
pub open spec fn same_list<V>(
    same: spec_fn(V, V) -> bool,
    xs: Seq<Located<SpacedView<V>>>,
    ys: Seq<Located<SpacedView<V>>>,
) -> bool {
    &&& xs.len() == ys.len()
    &&& forall|i: int|
        0 <= i < xs.len() ==> same_spaced(same, (#[trigger] xs[i]).value, ys[i].value)
}

/// Values with their places are the same where the values are.
pub open spec fn placed_as<V>(same: spec_fn(V, V) -> bool) -> spec_fn(
    Located<V>,
    Located<V>,
) -> bool {
    |x: Located<V>, y: Located<V>| same(x.value, y.value)
}

/// [`same_list`] as a relation.
pub open spec fn listed_as<V>(same: spec_fn(V, V) -> bool) -> spec_fn(
    Seq<Located<SpacedView<V>>>,
    Seq<Located<SpacedView<V>>>,
) -> bool {
    |xs: Seq<Located<SpacedView<V>>>, ys: Seq<Located<SpacedView<V>>>| same_list(same, xs, ys)
}

/// Whether two stretches of blank space agree.
spec fn same_spaces(line: Row, offset: int, left: SpaceState, right: SpaceState) -> bool {
    match (left, right) {
        (
            SpaceState::Good { bytes: b1, row: r1, col: c1, lines: l1 },
            SpaceState::Good { bytes: b2, row: r2, col: c2, lines: l2 },
        ) => {
            &&& b1 == b2
            &&& r1 == r2
            &&& l1 == l2
            &&& line <= r1
            &&& c2 == c1 + shift(line, offset, r1)
            &&& r1 == line ==> c2 + count_until(b2, NEWLINE) <= Col::MAX
        },
        (SpaceState::Bad { .. }, SpaceState::Bad { .. }) => true,
        _ => false,
    }
}

proof fn lemma_eat_spaces_steady(
    line: Row,
    offset: int,
    bytes: Seq<u8>,
    row: Row,
    col: Col,
    other: Col,
    lines: SpacesView,
)
    requires
        offset >= 0,
        line <= row,
        other == col + shift(line, offset, row),
        row == line ==> other + count_until(bytes, NEWLINE) <= Col::MAX,
    ensures
        same_spaces(
            line,
            offset,
            eat_spaces(bytes, row, col, lines),
            eat_spaces(bytes, row, other, lines),
        ),
    decreases bytes.len(),
{
    lemma_count_until(bytes, NEWLINE);
    lemma_count_until(bytes, TAB);
    if bytes.len() > 0 {
        let end = count_until(bytes, NEWLINE) as int;
        if bytes[0] == SPACE {
            if col < Col::MAX && other < Col::MAX {
                lemma_eat_spaces_steady(
                    line,
                    offset,
                    bytes.skip(1),
                    row,
                    (col + 1) as Col,
                    (other + 1) as Col,
                    lines,
                );
            }
        } else if bytes[0] == NEWLINE {
            if row < Row::MAX {
                lemma_eat_spaces_steady(
                    line,
                    offset,
                    bytes.skip(1),
                    (row + 1) as Row,
                    0,
                    0,
                    lines.push(CommentOrNewlineView::Newline),
                );
            }
        } else if bytes[0] == CARRIAGE_RETURN {
            lemma_eat_spaces_steady(line, offset, bytes.skip(1), row, col, other, lines);
        } else if bytes[0] == HASH {
            if let Some(found) = comment(bytes.subrange(1, end)) {
                if end < bytes.len() && row < Row::MAX {
                    lemma_eat_spaces_steady(
                        line,
                        offset,
                        bytes.skip(end + 1),
                        (row + 1) as Row,
                        0,
                        0,
                        lines.push(found),
                    );
                }
            }
        }
    }
}

/// Blank space does not depend on the column that it starts in.
pub proof fn lemma_space0_steady(min_indent: Col)
    ensures
        steady(space0(min_indent), equal()),
{
    reveal(steady);
    assert forall|line: Row, offset: int, a: StateView, b: StateView|
        #![trigger moved(line, offset, a, b), space0(min_indent)(a)]
        moved(line, offset, a, b) implies alike(
        line,
        offset,
        equal(),
        space0(min_indent)(a),
        space0(min_indent)(b),
    ) by {
        lemma_eat_spaces_steady(line, offset, a.bytes, a.line, a.column, b.column, Seq::empty());
    }
}

proof fn lemma_ident_rest_steady(
    line: Row,
    offset: int,
    found: Seq<char>,
    a: StateView,
    b: StateView,
)
    requires
        moved(line, offset, a, b),
    ensures
        alike(line, offset, equal(), ident_rest(found, a), ident_rest(found, b)),
    decreases a.bytes.len(),
{
    lemma_peek_width(a.bytes);
    if a.bytes.len() > 0 {
        if let Ok((ch, width)) = peek(a.bytes) {
            if continues_ident(ch) {
                lemma_char_in_one_line(a.bytes);
                lemma_moved_skip(line, offset, a, b, width);
                if a.has_room(width) {
                    lemma_ident_rest_steady(
                        line,
                        offset,
                        found.push(ch),
                        a.skip(width),
                        b.skip(width),
                    );
                }
            }
        }
    }
}

/// An identifier does not depend on the column that it starts in.
pub proof fn lemma_ident_steady(initial: Initial)
    ensures
        steady(ident(initial), equal()),
{
    reveal(steady);
    assert forall|line: Row, offset: int, a: StateView, b: StateView|
        #![trigger moved(line, offset, a, b), ident(initial)(a)]
        moved(line, offset, a, b) implies alike(
        line,
        offset,
        equal(),
        ident(initial)(a),
        ident(initial)(b),
    ) by {
        lemma_peek_width(a.bytes);
        if let Ok((ch, width)) = peek(a.bytes) {
            if initial.accepts(ch) {
                lemma_char_in_one_line(a.bytes);
                lemma_moved_skip(line, offset, a, b, width);
                if a.has_room(width) {
                    lemma_ident_rest_steady(line, offset, seq![ch], a.skip(width), b.skip(width));
                }
            }
        }
    }
}

proof fn lemma_module_name_rest_steady(
    line: Row,
    offset: int,
    found: Seq<char>,
    a: StateView,
    b: StateView,
)
    requires
        moved(line, offset, a, b),
    ensures
        alike(line, offset, equal(), module_name_rest(found, a), module_name_rest(found, b)),
    decreases a.bytes.len(),
{
    lemma_peek_width(a.bytes);
    lemma_peek_width(a.bytes.skip(1));
    lemma_dot_width(a.bytes);
    if a.bytes.len() > 0 {
        if let Ok((ch, width)) = peek(a.bytes) {
            lemma_char_in_one_line(a.bytes);
            if continues_ident(ch) {
                lemma_moved_skip(line, offset, a, b, width);
                if a.has_room(width) {
                    lemma_module_name_rest_steady(
                        line,
                        offset,
                        found.push(ch),
                        a.skip(width),
                        b.skip(width),
                    );
                }
            } else if ch == '.' {
                if let Ok((next, next_width)) = peek(a.bytes.skip(1)) {
                    if is_uppercase_letter(next) {
                        let both = width + next_width;
                        lemma_char_in_one_line(a.bytes.skip(1));
                        assert(in_one_line(a.bytes, both)) by {
                            assert forall|i: int| 0 <= i < both implies #[trigger] a.bytes[i]
                                != NEWLINE by {
                                if i > 0 {
                                    assert(a.bytes[i] == a.bytes.skip(1)[i - 1]);
                                }
                            }
                        }
                        lemma_moved_skip(line, offset, a, b, both);
                        if a.has_room(both) {
                            lemma_module_name_rest_steady(
                                line,
                                offset,
                                found.push('.').push(next),
                                a.skip(both),
                                b.skip(both),
                            );
                        }
                    }
                }
            }
        }
    }
}

/// A module name does not depend on the column that it starts in.
pub proof fn lemma_module_name_steady()
    ensures
        steady(module_name(), equal()),
{
    reveal(steady);
    assert forall|line: Row, offset: int, a: StateView, b: StateView|
        #![trigger moved(line, offset, a, b), module_name()(a)]
        moved(line, offset, a, b) implies alike(
        line,
        offset,
        equal(),
        module_name()(a),
        module_name()(b),
    ) by {
        lemma_peek_width(a.bytes);
        if let Ok((ch, width)) = peek(a.bytes) {
            if is_uppercase_letter(ch) {
                lemma_char_in_one_line(a.bytes);
                lemma_moved_skip(line, offset, a, b, width);
                if a.has_room(width) {
                    lemma_module_name_rest_steady(
                        line,
                        offset,
                        seq![ch],
                        a.skip(width),
                        b.skip(width),
                    );
                }
            }
        }
    }
}

proof fn lemma_more_spaces_steady<E>(
    line: Row,
    offset: int,
    found: Seq<()>,
    a: StateView,
    b: StateView,
)
    requires
        moved(line, offset, a, b),
    ensures
        alike(
            line,
            offset,
            equal(),
            more(list_space::<E>(), found, a),
            more(list_space::<E>(), found, b),
        ),
    decreases a.bytes.len(),
{
    if a.bytes.len() > 0 && a.bytes[0] == SPACE {
        lemma_moved_skip(line, offset, a, b, 1);
        if a.has_room(1) {
            lemma_more_spaces_steady::<E>(line, offset, found.push(()), a.skip(1), b.skip(1));
        }
    }
}

proof fn lemma_spaces_steady<E>()
    ensures
        steady(zero_or_more(list_space::<E>()), equal()),
{
    reveal(steady);
    let spaces = zero_or_more(list_space::<E>());
    assert forall|line: Row, offset: int, a: StateView, b: StateView|
        #![trigger moved(line, offset, a, b), spaces(a)]
        moved(line, offset, a, b) implies alike(line, offset, equal(), spaces(a), spaces(b)) by {
        if a.bytes.len() > 0 && a.bytes[0] == SPACE {
            lemma_moved_skip(line, offset, a, b, 1);
            if a.has_room(1) {
                lemma_more_spaces_steady::<E>(line, offset, seq![()], a.skip(1), b.skip(1));
            }
        }
    }
}

/// Entries of lists are the same, up to places, where their values are.
spec fn entry_as<V>(same: spec_fn(V, V) -> bool) -> spec_fn(
    Located<SpacedView<V>>,
    Located<SpacedView<V>>,
) -> bool {
    |x: Located<SpacedView<V>>, y: Located<SpacedView<V>>| same_spaced(same, x.value, y.value)
}

proof fn lemma_list_entry_steady<A, E>(
    p: Grammar<Located<A>, E>,
    min_indent: Col,
    same: spec_fn(A, A) -> bool,
)
    requires
        steady(p, placed_as(same)),
    ensures
        steady(list_entry(p, min_indent), entry_as(same)),
{
    reveal(steady);
    lemma_space0_steady(min_indent);
    reveal_with_fuel(same_spaced, 3);
    let entry = list_entry(p, min_indent);
    let space = space0(min_indent);
    assert forall|line: Row, offset: int, a: StateView, b: StateView|
        #![trigger moved(line, offset, a, b), entry(a)]
        moved(line, offset, a, b) implies alike(
        line,
        offset,
        entry_as(same),
        entry(a),
        entry(b),
    ) by {
        assert(alike(line, offset, equal(), space(a), space(b)));
        if let Ok((_, _, a1)) = space(a) {
            let b1 = space(b)->Ok_0.2;
            assert(alike(line, offset, placed_as(same), p(a1), p(b1)));
            if let Ok((_, _, a2)) = p(a1) {
                let b2 = p(b1)->Ok_0.2;
                assert(alike(line, offset, equal(), space(a2), space(b2)));
            }
        }
    }
}

proof fn lemma_more_entries_steady<A, D, E>(
    delimiter: Grammar<D, E>,
    p: Grammar<Located<SpacedView<A>>, E>,
    same: spec_fn(A, A) -> bool,
    xs: Seq<Located<SpacedView<A>>>,
    ys: Seq<Located<SpacedView<A>>>,
    line: Row,
    offset: int,
    a: StateView,
    b: StateView,
)
    requires
        steady(delimiter, equal()),
        steady(p, entry_as(same)),
        same_list(same, xs, ys),
        moved(line, offset, a, b),
    ensures
        alike(
            line,
            offset,
            listed_as(same),
            more_delimited(delimiter, p, xs, a),
            more_delimited(delimiter, p, ys, b),
        ),
    decreases a.bytes.len(),
{
    reveal(steady);
    assert(alike(line, offset, equal(), delimiter(a), delimiter(b)));
    if let Ok((_, _, a1)) = delimiter(a) {
        let b1 = delimiter(b)->Ok_0.2;
        assert(alike(line, offset, entry_as(same), p(a1), p(b1)));
        if let Ok((_, x, a2)) = p(a1) {
            let y = p(b1)->Ok_0.1;
            let b2 = p(b1)->Ok_0.2;
            assert(same_list(same, xs.push(x), ys.push(y)));
            if a2.bytes.len() < a.bytes.len() {
                lemma_more_entries_steady(
                    delimiter,
                    p,
                    same,
                    xs.push(x),
                    ys.push(y),
                    line,
                    offset,
                    a2,
                    b2,
                );
            }
        }
    }
}

proof fn lemma_entries_steady<A, D, E>(
    delimiter: Grammar<D, E>,
    p: Grammar<Located<SpacedView<A>>, E>,
    same: spec_fn(A, A) -> bool,
)
    requires
        steady(delimiter, equal()),
        steady(p, entry_as(same)),
    ensures
        steady(sep_by0(delimiter, p), listed_as(same)),
{
    reveal(steady);
    let entries = sep_by0(delimiter, p);
    assert forall|line: Row, offset: int, a: StateView, b: StateView|
        #![trigger moved(line, offset, a, b), entries(a)]
        moved(line, offset, a, b) implies alike(
        line,
        offset,
        listed_as(same),
        entries(a),
        entries(b),
    ) by {
        assert(alike(line, offset, entry_as(same), p(a), p(b)));
        if let Ok((_, x, a1)) = p(a) {
            let y = p(b)->Ok_0.1;
            let b1 = p(b)->Ok_0.2;
            lemma_more_entries_steady(
                delimiter,
                p,
                same,
                seq![x],
                seq![y],
                line,
                offset,
                a1,
                b1,
            );
        }
    }
}

proof fn lemma_mark_steady<E>(mark: u8)
    requires
        mark != NEWLINE,
    ensures
        steady(list_mark::<E>(mark), equal()),
{
    reveal(steady);
    let byte = list_mark::<E>(mark);
    assert forall|line: Row, offset: int, a: StateView, b: StateView|
        #![trigger moved(line, offset, a, b), byte(a)]
        moved(line, offset, a, b) implies alike(line, offset, equal(), byte(a), byte(b)) by {
        if a.bytes.len() > 0 && a.bytes[0] == mark {
            lemma_moved_skip(line, offset, a, b, 1);
        }
    }
}

proof fn lemma_brackets_steady<V, E>(
    opening: u8,
    entries: Grammar<V, ListProblem<E>>,
    closing: u8,
    same: spec_fn(V, V) -> bool,
)
    requires
        opening != NEWLINE,
        closing != NEWLINE,
        steady(entries, same),
    ensures
        steady(bracketed(opening, entries, closing), same),
{
    reveal(steady);
    lemma_spaces_steady::<E>();
    lemma_mark_steady::<E>(closing);
    let mark = list_mark::<E>(closing);
    let list = bracketed(opening, entries, closing);
    let spaces = zero_or_more(list_space::<E>());
    assert forall|line: Row, offset: int, a: StateView, b: StateView|
        #![trigger moved(line, offset, a, b), list(a)]
        moved(line, offset, a, b) implies alike(line, offset, same, list(a), list(b)) by {
        if a.bytes.len() > 0 && a.bytes[0] == opening {
            lemma_moved_skip(line, offset, a, b, 1);
            if a.has_room(1) {
                let a1 = a.skip(1);
                let b1 = b.skip(1);
                assert(alike(line, offset, equal(), spaces(a1), spaces(b1)));
                if let Ok((_, _, a2)) = spaces(a1) {
                    let b2 = spaces(b1)->Ok_0.2;
                    assert(alike(line, offset, same, entries(a2), entries(b2)));
                    if let Ok((_, _, a3)) = entries(a2) {
                        let b3 = entries(b2)->Ok_0.2;
                        assert(alike(line, offset, equal(), mark(a3), mark(b3)));
                    }
                }
            }
        }
    }
}

/// A list does not depend on the column that it starts in, where its entries do
/// not.
pub proof fn lemma_collection_steady<A, E>(
    opening: u8,
    p: Grammar<Located<A>, E>,
    delimiter: u8,
    closing: u8,
    min_indent: Col,
    same: spec_fn(A, A) -> bool,
)
    requires
        opening != NEWLINE,
        delimiter != NEWLINE,
        closing != NEWLINE,
        steady(p, placed_as(same)),
    ensures
        steady(collection_e(opening, p, delimiter, closing, min_indent), listed_as(same)),
{
    lemma_list_entry_steady(p, min_indent, same);
    lemma_mark_steady::<E>(delimiter);
    lemma_entries_steady(list_mark::<E>(delimiter), list_entry(p, min_indent), same);
    lemma_brackets_steady(
        opening,
        sep_by0(list_mark::<E>(delimiter), list_entry(p, min_indent)),
        closing,
        listed_as(same),
    );
    reveal(collection_e);
}

/// A keyword between blank space does not depend on the column that it starts in.
pub proof fn lemma_keyword_steady(min_indent: Col, keyword: Seq<char>)
    requires
        in_one_line(encode_utf8(keyword), encode_utf8(keyword).len() as int),
    ensures
        steady(spaces_around_keyword(min_indent, keyword), equal()),
{
    reveal(steady);
    lemma_space0_steady(min_indent);
    let around = spaces_around_keyword(min_indent, keyword);
    let space = space0(min_indent);
    let text = encode_utf8(keyword);
    assert forall|line: Row, offset: int, a: StateView, b: StateView|
        #![trigger moved(line, offset, a, b), around(a)]
        moved(line, offset, a, b) implies alike(line, offset, equal(), around(a), around(b)) by {
        assert(alike(line, offset, equal(), space(a), space(b)));
        if let Ok((_, _, a1)) = space(a) {
            let b1 = space(b)->Ok_0.2;
            if text.is_prefix_of(a1.bytes) {
                let width = text.len() as int;
                assert(in_one_line(a1.bytes, width)) by {
                    assert forall|i: int| 0 <= i < width implies #[trigger] a1.bytes[i]
                        != NEWLINE by {
                        assert(a1.bytes.subrange(0, width)[i] == text[i]);
                    }
                }
                lemma_moved_skip(line, offset, a1, b1, width);
                if a1.has_room(width) {
                    let a2 = a1.skip(width);
                    let b2 = b1.skip(width);
                    assert(alike(line, offset, equal(), space(a2), space(b2)));
                }
            }
        }
    }
}

/// An exposed value does not depend on the column that it starts in.
pub proof fn lemma_exposes_entry_steady()
    ensures
        steady(exposes_entry(), placed_as(equal())),
{
    lemma_ident_steady(Initial::Alphabetic);
    lemma_loc_steady(unqualified_ident(), equal());
}

/// Imports are the same, up to places, where they name the same module, package
/// and values.
pub open spec fn same_import(x: ImportsEntryView, y: ImportsEntryView) -> bool {
    match (x, y) {
        (ImportsEntryView::Module(m, xs), ImportsEntryView::Module(n, ys)) => {
            &&& m == n
            &&& same_list(equal(), xs, ys)
        },
        (ImportsEntryView::Package(p, m, xs), ImportsEntryView::Package(q, n, ys)) => {
            &&& p == q
            &&& m == n
            &&& same_list(equal(), xs, ys)
        },
        _ => false,
    }
}

/// [`same_import`] as a relation.
pub open spec fn import_as() -> spec_fn(ImportsEntryView, ImportsEntryView) -> bool {
    |x: ImportsEntryView, y: ImportsEntryView| same_import(x, y)
}

/// Names that may be missing.
spec fn opt_names_as() -> spec_fn(Option<NamesView>, Option<NamesView>) -> bool {
    |x: Option<NamesView>, y: Option<NamesView>|
        match (x, y) {
            (Some(xs), Some(ys)) => same_list(equal(), xs, ys),
            (None, None) => true,
            _ => false,
        }
}

proof fn lemma_opt_shortname_steady()
    ensures
        steady(opt_shortname(), equal()),
{
    reveal(steady);
    lemma_ident_steady(Initial::Lowercase);
    let opt = opt_shortname();
    let name = lowercase_ident();
    assert forall|line: Row, offset: int, a: StateView, b: StateView|
        #![trigger moved(line, offset, a, b), opt(a)]
        moved(line, offset, a, b) implies alike(line, offset, equal(), opt(a), opt(b)) by {
        assert(alike(line, offset, equal(), name(a), name(b)));
        if let Ok((_, _, a1)) = name(a) {
            let b1 = name(b)->Ok_0.2;
            if a1.bytes.len() > 0 && a1.bytes[0] == DOT {
                lemma_moved_skip(line, offset, a1, b1, 1);
            }
        }
    }
}

proof fn lemma_opt_exposed_values_steady()
    ensures
        steady(opt_exposed_values(), opt_names_as()),
{
    reveal(steady);
    lemma_exposes_entry_steady();
    lemma_collection_steady(
        OPEN_CURLY,
        exposes_entry(),
        COMMA,
        CLOSE_CURLY,
        MIN_INDENT,
        equal(),
    );
    let opt = opt_exposed_values();
    let list = collection_e(OPEN_CURLY, exposes_entry(), COMMA, CLOSE_CURLY, MIN_INDENT);
    assert forall|line: Row, offset: int, a: StateView, b: StateView|
        #![trigger moved(line, offset, a, b), opt(a)]
        moved(line, offset, a, b) implies alike(line, offset, opt_names_as(), opt(a), opt(b)) by {
        if a.bytes.len() > 0 && a.bytes[0] == DOT {
            lemma_moved_skip(line, offset, a, b, 1);
            if a.has_room(1) {
                assert(alike(line, offset, listed_as(equal()), list(a.skip(1)), list(b.skip(1))));
            }
        }
    }
}

/// An import does not depend on the column that it starts in.
pub proof fn lemma_imports_entry_steady()
    ensures
        steady(imports_entry(), import_as()),
{
    reveal(steady);
    lemma_opt_shortname_steady();
    lemma_module_name_steady();
    lemma_opt_exposed_values_steady();
    let entry = imports_entry();
    let opt = opt_shortname();
    let name = module_name();
    let values = opt_exposed_values();
    assert forall|line: Row, offset: int, a: StateView, b: StateView|
        #![trigger moved(line, offset, a, b), entry(a)]
        moved(line, offset, a, b) implies alike(line, offset, import_as(), entry(a), entry(b)) by {
        assert(alike(line, offset, equal(), opt(a), opt(b)));
        if let Ok((_, _, a1)) = opt(a) {
            let b1 = opt(b)->Ok_0.2;
            assert(alike(line, offset, equal(), name(a1), name(b1)));
            if let Ok((_, _, a2)) = name(a1) {
                let b2 = name(b1)->Ok_0.2;
                assert(alike(line, offset, opt_names_as(), values(a2), values(b2)));
            }
        }
    }
}

/// A keyword and the list behind it are the same, up to places, where the blank
/// space around the keyword is equal and the lists are the same.
pub open spec fn section_as<V>(same: spec_fn(V, V) -> bool) -> spec_fn(
    ((SpacesView, SpacesView), Seq<Located<SpacedView<V>>>),
    ((SpacesView, SpacesView), Seq<Located<SpacedView<V>>>),
) -> bool {
    |
        x: ((SpacesView, SpacesView), Seq<Located<SpacedView<V>>>),
        y: ((SpacesView, SpacesView), Seq<Located<SpacedView<V>>>),
    |
        x.0 == y.0 && same_list(same, x.1, y.1)
}

/// A list behind a keyword does not depend on the column that it starts in, where
/// the two do not.
broadcast proof fn lemma_section_steady<V, X, Y, E>(
    f: spec_fn(X) -> E,
    around: Grammar<(SpacesView, SpacesView), X>,
    g: spec_fn(Y) -> E,
    list: Grammar<Seq<Located<SpacedView<V>>>, Y>,
    same: spec_fn(V, V) -> bool,
)
    requires
        steady(around, equal()),
        steady(list, listed_as(same)),
    ensures
        #[trigger] steady(and(map_err(f, around), map_err(g, list)), section_as(same)),
{
    reveal(steady);
    let section = and(map_err(f, around), map_err(g, list));
    assert forall|line: Row, offset: int, a: StateView, b: StateView|
        #![trigger moved(line, offset, a, b), section(a)]
        moved(line, offset, a, b) implies alike(
        line,
        offset,
        section_as(same),
        section(a),
        section(b),
    ) by {
        assert(alike(line, offset, equal(), around(a), around(b)));
        if let Ok((_, _, a1)) = around(a) {
            let b1 = around(b)->Ok_0.2;
            assert(alike(line, offset, listed_as(same), list(a1), list(b1)));
        }
    }
}

/// What is parsed with its place does not depend on the column that it starts in,
/// up to that place.
pub proof fn lemma_loc_steady<V, E>(p: Grammar<V, E>, same: spec_fn(V, V) -> bool)
    requires
        steady(p, same),
    ensures
        steady(loc(p), placed_as(same)),
{
    reveal(steady);
    let located = loc(p);
    assert forall|line: Row, offset: int, a: StateView, b: StateView|
        #![trigger moved(line, offset, a, b), located(a)]
        moved(line, offset, a, b) implies alike(
        line,
        offset,
        placed_as(same),
        located(a),
        located(b),
    ) by {
        assert(alike(line, offset, same, p(a), p(b)));
    }
}

/// An `imports` list does not depend on the column that it starts in.
pub proof fn lemma_imports_steady()
    ensures
        steady(imports(), section_as(import_as())),
{
    broadcast use lemma_section_steady;

    reveal(imports);
    lemma_keywords_in_one_line();
    lemma_keyword_steady(MIN_INDENT, "imports"@);
    lemma_imports_entry_steady();
    let entry = loc(imports_entry());
    lemma_loc_steady(imports_entry(), import_as());
    lemma_collection_steady(OPEN_SQUARE, entry, COMMA, CLOSE_SQUARE, MIN_INDENT, import_as());
}

/// A `provides` list does not depend on the column that it starts in.
pub proof fn lemma_provides_steady()
    ensures
        steady(provides_without_to(), section_as(equal())),
{
    broadcast use lemma_section_steady;

    reveal(provides_without_to);
    lemma_keywords_in_one_line();
    lemma_keyword_steady(MIN_INDENT, "provides"@);
    lemma_exposes_entry_steady();
    lemma_collection_steady(
        OPEN_SQUARE,
        exposes_entry(),
        COMMA,
        CLOSE_SQUARE,
        MIN_INDENT,
        equal(),
    );
}

/// What apps are provided to is the same where the packages are.
pub open spec fn same_to<P>(same: spec_fn(P, P) -> bool, x: ToView<P>, y: ToView<P>) -> bool {
    match (x, y) {
        (ToView::ExistingPackage(m), ToView::ExistingPackage(n)) => m == n,
        (ToView::NewPackage(p), ToView::NewPackage(q)) => same(p, q),
        _ => false,
    }
}

/// [`same_to`] as a relation.
pub open spec fn to_as<P>(same: spec_fn(P, P) -> bool) -> spec_fn(ToView<P>, ToView<P>) -> bool {
    |x: ToView<P>, y: ToView<P>| same_to(same, x, y)
}

/// What apps provide, and to what, is the same up to places.
pub open spec fn provides_as<P>(same: spec_fn(P, P) -> bool) -> spec_fn(
    ProvidesToView<P>,
    ProvidesToView<P>,
) -> bool {
    |x: ProvidesToView<P>, y: ProvidesToView<P>|
        {
            &&& same_list(equal(), x.entries, y.entries)
            &&& same_to(same, x.to.value, y.to.value)
            &&& x.before_provides_keyword == y.before_provides_keyword
            &&& x.after_provides_keyword == y.after_provides_keyword
            &&& x.before_to_keyword == y.before_to_keyword
            &&& x.after_to_keyword == y.after_to_keyword
        }
}

/// What an app provides, and to what, does not depend on the column that it
/// starts in.
pub proof fn lemma_provides_to_steady<P, X>(
    package_or_path: Grammar<P, X>,
    same: spec_fn(P, P) -> bool,
)
    requires
        steady(package_or_path, same),
    ensures
        steady(provides_to(package_or_path), provides_as(same)),
{
    reveal(steady);
    reveal(provides_to);
    lemma_provides_steady();
    lemma_keywords_in_one_line();
    lemma_keyword_steady(MIN_INDENT, "to"@);
    lemma_ident_steady(Initial::Lowercase);
    let package = provides_to_package(package_or_path);
    let name = lowercase_ident();
    assert(steady(package, to_as(same))) by {
        assert forall|line: Row, offset: int, a: StateView, b: StateView|
            #![trigger moved(line, offset, a, b), package(a)]
            moved(line, offset, a, b) implies alike(
            line,
            offset,
            to_as(same),
            package(a),
            package(b),
        ) by {
            assert(alike(line, offset, equal(), name(a), name(b)));
            if let Err((_, _, a1)) = name(a) {
                let b1 = name(b)->Err_0.2;
                assert(alike(line, offset, same, package_or_path(a1), package_or_path(b1)));
            }
        }
    }
    let section = provides_to(package_or_path);
    let list = provides_without_to();
    let around = spaces_around_keyword(MIN_INDENT, "to"@);
    assert forall|line: Row, offset: int, a: StateView, b: StateView|
        #![trigger moved(line, offset, a, b), section(a)]
        moved(line, offset, a, b) implies alike(
        line,
        offset,
        provides_as(same),
        section(a),
        section(b),
    ) by {
        assert(alike(line, offset, section_as(equal()), list(a), list(b)));
        if let Ok((_, _, a1)) = list(a) {
            let b1 = list(b)->Ok_0.2;
            assert(alike(line, offset, equal(), around(a1), around(b1)));
            if let Ok((_, _, a2)) = around(a1) {
                let b2 = around(b1)->Ok_0.2;
                assert(alike(line, offset, to_as(same), package(a2), package(b2)));
            }
        }
    }
}

} // verus!
