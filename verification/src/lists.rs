//! What bracketed lists give back, over as many lines as they take: all the entries
//! that stand between the brackets, each with the blank space around it.

use crate::ast::SpacedView;
use crate::blankspace::space0;
use crate::collection::{collection_e, list_entry, list_mark, list_space};
use crate::combine::{more, more_delimited, sep_by0, zero_or_more, Grammar};
use crate::parts::{fails, gives, law_list_entry_parts, with_lines};
use crate::problem::ListProblem;
use crate::region::{Col, Located};
use crate::state::{MadeProgress, NoProgress, StateView};
use vstd::prelude::*;

verus! {

/// Whether `found` is the entry that stands between two places, with blank space
/// around it.
pub open spec fn entry_between<A, E>(
    p: Grammar<Located<A>, E>,
    min_indent: Col,
    found: Located<SpacedView<A>>,
    start: StateView,
    end: StateView,
) -> bool {
    space0(min_indent)(start) matches Ok((_, before, s1)) && p(s1) matches Ok((_, entry, s2))
        && space0(min_indent)(s2) matches Ok((_, after, s3)) && {
        &&& found.region == entry.region
        &&& found.value == with_lines(entry.value, before, after)
        &&& end == s3
    }
}

/// Whether `found` are entries that stand one behind the other, each between the
/// two states that it has in `places`, with a `delimiter` behind all but the last.
pub open spec fn are_entries<A, E>(
    p: Grammar<Located<A>, E>,
    delimiter: u8,
    min_indent: Col,
    found: Seq<Located<SpacedView<A>>>,
    places: Seq<(StateView, StateView)>,
) -> bool {
    &&& places.len() == found.len()
    &&& forall|i: int|
        0 <= i < found.len() ==> entry_between(
            p,
            min_indent,
            #[trigger] found[i],
            places[i].0,
            places[i].1,
        )
    &&& forall|i: int| 0 < i < found.len() ==> follows(places, delimiter, i)
}

/// Whether an entry starts behind the delimiter that stands where the one before it
/// ends.
pub open spec fn follows(places: Seq<(StateView, StateView)>, delimiter: u8, i: int) -> bool {
    let end = places[i - 1].1;
    &&& end.bytes.len() > 0
    &&& end.bytes[0] == delimiter
    &&& places[i].0 == end.skip(1)
}

/// More entries, behind some that stand one behind the other.
proof fn lemma_more_entries<A, E>(
    p: Grammar<Located<A>, E>,
    delimiter: u8,
    min_indent: Col,
    found: Seq<Located<SpacedView<A>>>,
    places: Seq<(StateView, StateView)>,
    s: StateView,
) -> (all_places: Seq<(StateView, StateView)>)
    requires
        are_entries(p, delimiter, min_indent, found, places),
        found.len() > 0,
        places.last().1 == s,
    ensures
        more_delimited(
            list_mark::<E>(delimiter),
            list_entry(p, min_indent),
            found,
            s,
        ) matches Ok((_, all, end)) ==> {
            &&& are_entries(p, delimiter, min_indent, all, all_places)
            &&& all.len() >= found.len()
            &&& all_places[0].0 == places[0].0
            &&& all_places.last().1 == end
        },
    decreases s.bytes.len(),
{
    let s1 = s.skip(1);
    law_list_entry_parts(p, min_indent, s1);
    if let Ok(_) = list_mark::<E>(delimiter)(s) {
        if let Ok((_, one, s2)) = list_entry(p, min_indent)(s1) {
            let found1 = found.push(one);
            let places1 = places.push((s1, s2));
            assert forall|i: int| 0 <= i < found1.len() implies entry_between(
                p,
                min_indent,
                #[trigger] found1[i],
                places1[i].0,
                places1[i].1,
            ) by {
                if i < found.len() {
                    assert(found1[i] == found[i]);
                }
            }
            assert forall|i: int| 0 < i < found1.len() implies follows(places1, delimiter, i) by {
                if i < found.len() {
                    assert(follows(places, delimiter, i));
                }
            }
            if s2.bytes.len() < s.bytes.len() {
                lemma_more_entries(p, delimiter, min_indent, found1, places1, s2)
            } else {
                places1
            }
        } else {
            places
        }
    } else {
        places
    }
}

/// Whether `count` spaces come next, and no more of them that fit the line.
pub open spec fn spaces_next(s: StateView, count: int) -> bool {
    &&& 0 <= count <= s.bytes.len()
    &&& s.has_room(count)
    &&& forall|i: int| 0 <= i < count ==> #[trigger] s.bytes[i] == 0x20
    &&& count < s.bytes.len() && s.has_room(count + 1) ==> s.bytes[count] != 0x20
}

proof fn lemma_same_spaces(s: StateView, count: int, other: int)
    requires
        spaces_next(s, count),
        spaces_next(s, other),
    ensures
        count == other,
{
    if count < other {
        assert(s.bytes[count] == 0x20);
    } else if other < count {
        assert(s.bytes[other] == 0x20);
    }
}

proof fn lemma_one_more_space(s: StateView, count: int)
    requires
        s.bytes.len() > 0,
        s.bytes[0] == 0x20,
        s.has_room(1),
        spaces_next(s.skip(1), count),
    ensures
        spaces_next(s, count + 1),
        s.skip(1).skip(count) == s.skip(count + 1),
{
    assert forall|i: int| 0 <= i < count + 1 implies #[trigger] s.bytes[i] == 0x20 by {
        if i > 0 {
            assert(s.bytes[i] == s.skip(1).bytes[i - 1]);
        }
    }
    assert(s.bytes.skip(1).skip(count) =~= s.bytes.skip(count + 1));
}

proof fn lemma_more_spaces<E>(found: Seq<()>, s: StateView) -> (count: int)
    ensures
        spaces_next(s, count),
        more(list_space::<E>(), found, s) matches Ok((_, _, end)) && end == s.skip(count),
    decreases s.bytes.len(),
{
    assert(s.bytes.skip(0) =~= s.bytes);
    if s.bytes.len() > 0 && s.bytes[0] == 0x20 && s.has_room(1) {
        let count = lemma_more_spaces::<E>(found.push(()), s.skip(1));
        lemma_one_more_space(s, count);
        count + 1
    } else {
        0
    }
}

proof fn lemma_spaces<E>(s: StateView) -> (count: int)
    ensures
        spaces_next(s, count),
        zero_or_more(list_space::<E>())(s) matches Ok((_, _, end)) && end == s.skip(count),
{
    assert(s.bytes.skip(0) =~= s.bytes);
    if s.bytes.len() > 0 && s.bytes[0] == 0x20 && s.has_room(1) {
        let count = lemma_more_spaces::<E>(seq![()], s.skip(1));
        lemma_one_more_space(s, count);
        count + 1
    } else {
        0
    }
}

/// A list is its opening bracket, spaces, all its entries with a delimiter between
/// each two of them, and its closing bracket. The result is the number of spaces, and
/// the places where each entry starts and ends.
pub proof fn law_list_each<A, E>(
    opening: u8,
    p: Grammar<Located<A>, E>,
    delimiter: u8,
    closing: u8,
    min_indent: Col,
    s: StateView,
) -> (found: (int, Seq<(StateView, StateView)>))
    requires
        collection_e(opening, p, delimiter, closing, min_indent)(s) is Ok,
    ensures
        collection_e(opening, p, delimiter, closing, min_indent)(s) matches Ok(
            (MadeProgress, entries, end),
        ) && {
            let (spaces, places) = found;
            let start = s.skip(1).skip(spaces);
            let last = if entries.len() == 0 {
                start
            } else {
                places.last().1
            };
            &&& s.bytes.len() > 0 && s.bytes[0] == opening
            &&& spaces_next(s.skip(1), spaces)
            &&& are_entries(p, delimiter, min_indent, entries, places)
            &&& entries.len() > 0 ==> places[0].0 == start
            &&& entries.len() == 0 ==> list_entry(p, min_indent)(start) is Err
            &&& last.bytes.len() > 0 && last.bytes[0] == closing
            &&& end == last.skip(1)
        },
{
    reveal(collection_e);
    let spaces = lemma_spaces::<E>(s.skip(1));
    let start = s.skip(1).skip(spaces);
    law_list_entry_parts(p, min_indent, start);
    match list_entry(p, min_indent)(start) {
        Ok((_, one, s1)) => {
            let places = seq![(start, s1)];
            assert(are_entries(p, delimiter, min_indent, seq![one], places));
            (spaces, lemma_more_entries(p, delimiter, min_indent, seq![one], places, s1))
        },
        Err(_) => (spaces, Seq::empty()),
    }
}

/// Whether each entry ends in a column that can be counted, behind the one before it.
pub open spec fn moves_on(places: Seq<(StateView, StateView)>) -> bool {
    &&& forall|i: int| 0 <= i < places.len() ==> (#[trigger] places[i]).1.has_room(1)
    &&& forall|i: int|
        0 < i < places.len() ==> (#[trigger] places[i]).1.bytes.len() < places[i
            - 1].1.bytes.len()
}

proof fn lemma_entries_taken<A, E>(
    p: Grammar<Located<A>, E>,
    delimiter: u8,
    min_indent: Col,
    entries: Seq<Located<SpacedView<A>>>,
    places: Seq<(StateView, StateView)>,
    i: int,
)
    requires
        are_entries(p, delimiter, min_indent, entries, places),
        moves_on(places),
        0 < i <= entries.len(),
        places.last().1.bytes.len() == 0 || places.last().1.bytes[0] != delimiter,
    ensures
        more_delimited(
            list_mark::<E>(delimiter),
            list_entry(p, min_indent),
            entries.take(i),
            places[i - 1].1,
        ) matches Ok((_, all, end)) && all == entries && end == places.last().1,
    decreases entries.len() - i,
{
    if i == entries.len() {
        assert(entries.take(i) =~= entries);
    } else {
        assert(follows(places, delimiter, i));
        assert(places[i - 1].1.has_room(1));
        let s1 = places[i].0;
        law_list_entry_parts(p, min_indent, s1);
        assert(entry_between(p, min_indent, entries[i], s1, places[i].1));
        assert(entries.take(i).push(entries[i]) =~= entries.take(i + 1));
        lemma_entries_taken(p, delimiter, min_indent, entries, places, i + 1);
    }
}

/// Where entries stand one behind the other between the brackets, with a delimiter
/// between each two of them, the list holds just these entries, however many.
pub proof fn law_list_of_entries<A, E>(
    opening: u8,
    p: Grammar<Located<A>, E>,
    delimiter: u8,
    closing: u8,
    min_indent: Col,
    spaces: int,
    entries: Seq<Located<SpacedView<A>>>,
    places: Seq<(StateView, StateView)>,
    s: StateView,
)
    requires
        delimiter != closing,
        s.bytes.len() > 0,
        s.bytes[0] == opening,
        s.has_room(1),
        spaces_next(s.skip(1), spaces),
        are_entries(p, delimiter, min_indent, entries, places),
        moves_on(places),
        entries.len() > 0,
        places[0].0 == s.skip(1).skip(spaces),
        places.last().1.bytes.len() > 0,
        places.last().1.bytes[0] == closing,
    ensures
        gives(
            collection_e(opening, p, delimiter, closing, min_indent)(s),
            MadeProgress,
            entries,
            places.last().1.skip(1),
        ),
{
    reveal(collection_e);
    let count = lemma_spaces::<E>(s.skip(1));
    lemma_same_spaces(s.skip(1), count, spaces);
    let start = places[0].0;
    law_list_entry_parts(p, min_indent, start);
    assert(entry_between(p, min_indent, entries[0], start, places[0].1));
    assert(entries.take(1) =~= seq![entries[0]]);
    lemma_entries_taken(p, delimiter, min_indent, entries, places, 1);
    assert(places.last().1.has_room(1));
}

/// Where its opening bracket does not come next, there is no list: nothing is taken.
pub proof fn law_list_missing<A, E>(
    opening: u8,
    p: Grammar<Located<A>, E>,
    delimiter: u8,
    closing: u8,
    min_indent: Col,
    s: StateView,
)
    requires
        s.bytes.len() == 0 || s.bytes[0] != opening || !s.has_room(1),
    ensures
        fails(
            collection_e(opening, p, delimiter, closing, min_indent)(s),
            NoProgress,
            ListProblem::Start(s.line, s.column),
            s,
        ),
{
    reveal(collection_e);
}

/// What is wrong with more entries: the one behind the delimiter that stands where
/// the ones before it end.
proof fn lemma_more_problem<A, E>(
    p: Grammar<Located<A>, E>,
    delimiter: u8,
    min_indent: Col,
    found: Seq<Located<SpacedView<A>>>,
    places: Seq<(StateView, StateView)>,
    s: StateView,
) -> (all_places: Seq<(StateView, StateView)>)
    requires
        are_entries(p, delimiter, min_indent, found, places),
        found.len() > 0,
        places.last().1 == s,
    ensures
        more_delimited(
            list_mark::<E>(delimiter),
            list_entry(p, min_indent),
            found,
            s,
        ) matches Err((progress, e, _)) ==> {
            let last = all_places.last().1;
            &&& progress == MadeProgress
            &&& all_places.len() > 0
            &&& all_places[0].0 == places[0].0
            &&& exists|all: Seq<Located<SpacedView<A>>>| #[trigger]
                are_entries(p, delimiter, min_indent, all, all_places)
            &&& last.bytes.len() > 0
            &&& last.bytes[0] == delimiter
            &&& list_entry(p, min_indent)(last.skip(1)) matches Err((_, problem, _)) && e == problem
        },
    decreases s.bytes.len(),
{
    let s1 = s.skip(1);
    law_list_entry_parts(p, min_indent, s1);
    if let Ok(_) = list_mark::<E>(delimiter)(s) {
        if let Ok((_, one, s2)) = list_entry(p, min_indent)(s1) {
            let found1 = found.push(one);
            let places1 = places.push((s1, s2));
            assert forall|i: int| 0 <= i < found1.len() implies entry_between(
                p,
                min_indent,
                #[trigger] found1[i],
                places1[i].0,
                places1[i].1,
            ) by {
                if i < found.len() {
                    assert(found1[i] == found[i]);
                }
            }
            assert forall|i: int| 0 < i < found1.len() implies follows(places1, delimiter, i) by {
                if i < found.len() {
                    assert(follows(places, delimiter, i));
                }
            }
            if s2.bytes.len() < s.bytes.len() {
                lemma_more_problem(p, delimiter, min_indent, found1, places1, s2)
            } else {
                places1
            }
        } else {
            assert(are_entries(p, delimiter, min_indent, found, places));
            places
        }
    } else {
        places
    }
}

/// Behind its opening bracket, a list that fails does so with progress, and leaves
/// the input as it was. The problem is that of the entry that should stand behind the
/// ones that are there, or the place where the closing bracket should. The result is
/// the number of spaces, and the places of the entries that are there.
pub proof fn law_list_failure<A, E>(
    opening: u8,
    p: Grammar<Located<A>, E>,
    delimiter: u8,
    closing: u8,
    min_indent: Col,
    s: StateView,
) -> (found: (int, Seq<(StateView, StateView)>))
    requires
        s.bytes.len() > 0,
        s.bytes[0] == opening,
        s.has_room(1),
        collection_e(opening, p, delimiter, closing, min_indent)(s) is Err,
    ensures
        collection_e(opening, p, delimiter, closing, min_indent)(s) matches Err(
            (MadeProgress, e, at),
        ) && {
            let (spaces, places) = found;
            let start = s.skip(1).skip(spaces);
            let last = if places.len() == 0 {
                start
            } else {
                places.last().1
            };
            &&& at == s
            &&& spaces_next(s.skip(1), spaces)
            &&& exists|entries: Seq<Located<SpacedView<A>>>| #[trigger]
                are_entries(p, delimiter, min_indent, entries, places)
            &&& places.len() > 0 ==> places[0].0 == start
            &&& {
                ||| places.len() == 0 && (list_entry(p, min_indent)(start) matches Err(
                    (MadeProgress, problem, _),
                ) && e == problem)
                ||| places.len() > 0 && last.bytes.len() > 0 && last.bytes[0] == delimiter && (
                list_entry(p, min_indent)(last.skip(1)) matches Err((_, problem, _)) && e
                    == problem)
                ||| (last.bytes.len() == 0 || last.bytes[0] != closing || !last.has_room(1)) && e
                    == ListProblem::<E>::End(last.line, last.column)
            }
        },
{
    reveal(collection_e);
    let spaces = lemma_spaces::<E>(s.skip(1));
    let start = s.skip(1).skip(spaces);
    law_list_entry_parts(p, min_indent, start);
    match list_entry(p, min_indent)(start) {
        Ok((_, one, s1)) => {
            let places = seq![(start, s1)];
            let found = seq![one];
            assert(are_entries(p, delimiter, min_indent, found, places));
            if sep_by0(list_mark::<E>(delimiter), list_entry(p, min_indent))(start) is Err {
                (spaces, lemma_more_problem(p, delimiter, min_indent, found, places, s1))
            } else {
                (spaces, lemma_more_entries(p, delimiter, min_indent, found, places, s1))
            }
        },
        Err(_) => {
            let none = Seq::<Located<SpacedView<A>>>::empty();
            let places = Seq::<(StateView, StateView)>::empty();
            assert(are_entries(p, delimiter, min_indent, none, places));
            (spaces, places)
        },
    }
}

} // verus!
