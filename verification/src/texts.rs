//! What texts are parsed to. A text that is written from names is parsed to just
//! these names: each of them, in their order, and nothing else.

use crate::ast::{CommentOrNewlineView, SpacedView};
use crate::blankspace::space0;
use crate::collection::{bracketed, collection_e, list_entry, list_mark, list_space};
use crate::combine::{more, more_delimited, sep_by0, zero_or_more, Grammar};
use crate::laws::{lemma_no_space, lemma_one_space, refuses, starts_blank};
use crate::problem::{ListProblem, SpaceProblem};
use crate::region::{Col, Located, Region};
use crate::state::{MadeProgress, NoProgress, Progress, StateView};
use vstd::prelude::*;

verus! {

/// The place of the next `width` columns of a line.
pub open spec fn span(s: StateView, width: int) -> Region {
    Region {
        start_line: s.line,
        end_line: s.line,
        start_col: s.column,
        end_col: (s.column + width) as Col,
    }
}

/// The states behind two texts, one after the other.
pub proof fn lemma_skip_twice(s: StateView, first: int, second: int)
    requires
        0 <= first,
        0 <= second,
        first + second <= s.bytes.len(),
        s.has_room(first + second),
    ensures
        s.skip(first).skip(second) == s.skip(first + second),
{
    assert(s.bytes.skip(first).skip(second) =~= s.bytes.skip(first + second));
}

/// Whether `text`, before a space or a comma, is what `p` takes, and gives a value
/// of which `fact` holds.
pub open spec fn takes<A, E>(
    p: Grammar<Located<A>, E>,
    text: Seq<u8>,
    fact: spec_fn(A) -> bool,
) -> bool {
    &&& text.len() > 0
    &&& !starts_blank(text)
    &&& forall|s: StateView|
        text.is_prefix_of(s.bytes) && s.has_room(text.len() as int) && s.bytes.len() > text.len()
            && (s.bytes[text.len() as int] == 0x20 || s.bytes[text.len() as int] == 0x2c) ==> (
        #[trigger] p(s) matches Ok((MadeProgress, a, s1)) && fact(a.value) && a.region == span(
            s,
            text.len() as int,
        ) && s1 == s.skip(text.len() as int))
}

/// Texts with a comma and a space between them.
pub open spec fn comma_text(texts: Seq<Seq<u8>>) -> Seq<u8>
    decreases texts.len(),
{
    if texts.len() == 0 {
        Seq::empty()
    } else if texts.len() == 1 {
        texts[0]
    } else {
        texts[0] + (seq![0x2cu8, 0x20u8] + comma_text(texts.skip(1)))
    }
}

/// A list with such entries, in brackets.
pub open spec fn list_text(opening: u8, texts: Seq<Seq<u8>>, closing: u8) -> Seq<u8> {
    seq![opening, 0x20u8] + (comma_text(texts) + seq![0x20u8, closing])
}

/// Whether every entry is taken, with the fact at its place.
pub open spec fn all_taken<A, E>(
    p: Grammar<Located<A>, E>,
    texts: Seq<Seq<u8>>,
    facts: Seq<spec_fn(A) -> bool>,
) -> bool {
    &&& texts.len() == facts.len()
    &&& forall|i: int| 0 <= i < texts.len() ==> takes(p, #[trigger] texts[i], facts[i])
}

/// Whether a list has one entry for each text, in their order: the fact at its
/// place holds of its value, no blank lines stand around it, and its place is as
/// wide as the text.
pub open spec fn holds<A>(
    list: Seq<Located<SpacedView<A>>>,
    texts: Seq<Seq<u8>>,
    facts: Seq<spec_fn(A) -> bool>,
) -> bool {
    &&& list.len() == texts.len()
    &&& list.len() == facts.len()
    &&& forall|i: int|
        0 <= i < list.len() ==> is_entry(#[trigger] list[i], texts[i], facts[i])
}

/// Whether an entry of a list is what `text` was taken as.
pub open spec fn is_entry<A>(
    entry: Located<SpacedView<A>>,
    text: Seq<u8>,
    fact: spec_fn(A) -> bool,
) -> bool {
    &&& entry.value matches SpacedView::Item(value) && fact(value)
    &&& entry.region.start_line == entry.region.end_line
    &&& entry.region.end_col - entry.region.start_col == text.len()
}

/// An entry before a comma, or before a space and the closing bracket.
proof fn lemma_entry_given<A, E>(
    p: Grammar<Located<A>, E>,
    min_indent: Col,
    text: Seq<u8>,
    fact: spec_fn(A) -> bool,
    rest: Seq<u8>,
    s: StateView,
)
    requires
        takes(p, text, fact),
        s.bytes == text + rest,
        s.has_room(text.len() as int + 1),
        rest.len() > 1,
        rest[0] == 0x2c || (rest[0] == 0x20 && !starts_blank(rest.skip(1))),
    ensures
        ({
            let width = if rest[0] == 0x2c {
                text.len() as int
            } else {
                text.len() as int + 1
            };
            list_entry(p, min_indent)(s) matches Ok((MadeProgress, entry, end)) && is_entry(
                entry,
                text,
                fact,
            ) && end == s.skip(width)
        }),
{
    assert(s.bytes[0] == text[0]);
    lemma_no_space(min_indent, s);
    assert(text.is_prefix_of(s.bytes)) by {
        assert(s.bytes.subrange(0, text.len() as int) =~= text);
    }
    assert(s.bytes[text.len() as int] == rest[0]);
    let s1 = s.skip(text.len() as int);
    assert(s1.bytes =~= rest);
    assert(p(s) matches Ok((MadeProgress, _, end)) && end == s1);
    if rest[0] == 0x2c {
        lemma_no_space(min_indent, s1);
    } else {
        lemma_one_space(min_indent, s1);
        assert(s1.skip(1) == s.skip(text.len() as int + 1)) by {
            assert(s1.bytes.skip(1) =~= s.bytes.skip(text.len() as int + 1));
        }
    }
}

proof fn lemma_holds_push<A>(
    list: Seq<Located<SpacedView<A>>>,
    texts: Seq<Seq<u8>>,
    facts: Seq<spec_fn(A) -> bool>,
    entry: Located<SpacedView<A>>,
    text: Seq<u8>,
    fact: spec_fn(A) -> bool,
)
    requires
        holds(list, texts, facts),
        is_entry(entry, text, fact),
    ensures
        holds(list.push(entry), texts.push(text), facts.push(fact)),
{
}

/// A comma and an entry behind others.
proof fn lemma_next_given<A, E>(
    p: Grammar<Located<A>, E>,
    min_indent: Col,
    text: Seq<u8>,
    fact: spec_fn(A) -> bool,
    tail: Seq<u8>,
    found: Seq<Located<SpacedView<A>>>,
    s: StateView,
) -> (entry: Located<SpacedView<A>>)
    requires
        takes(p, text, fact),
        s.bytes == seq![0x2cu8, 0x20u8] + (text + tail),
        s.has_room(text.len() as int + 3),
        tail.len() > 1,
        tail[0] == 0x2c || (tail[0] == 0x20 && !starts_blank(tail.skip(1))),
    ensures
        is_entry(entry, text, fact),
        ({
            let width = if tail[0] == 0x2c {
                text.len() as int + 2
            } else {
                text.len() as int + 3
            };
            more_delimited(list_mark::<E>(0x2c), list_entry(p, min_indent), found, s)
                == more_delimited(
                list_mark::<E>(0x2c),
                list_entry(p, min_indent),
                found.push(entry),
                s.skip(width),
            )
        }),
{
    let mark = list_mark::<E>(0x2c);
    let entry = list_entry(p, min_indent);
    let width = if tail[0] == 0x2c {
        text.len() as int + 2
    } else {
        text.len() as int + 3
    };
    assert(s.bytes[0] == 0x2c);
    let s1 = s.skip(1);
    assert(mark(s) matches Ok((_, _, end)) && end == s1);
    assert(s1.bytes[0] == 0x20);
    let s2 = s.skip(2);
    assert(s1.bytes.skip(1) =~= text + tail);
    assert(s2.bytes =~= text + tail);
    assert(s2.bytes[0] == text[0]);
    lemma_one_space(min_indent, s1);
    assert(s1.skip(1) == s2);
    lemma_entry_given(p, min_indent, text, fact, tail, s2);
    lemma_space_then_entry(p, min_indent, s1, s2);
    assert(s2.skip(width - 2) == s.skip(width)) by {
        assert(s2.bytes.skip(width - 2) =~= s.bytes.skip(width));
    }
    assert(entry(s1) matches Ok((_, _, end)) && end == s.skip(width));
    entry(s1)->Ok_0.1
}

proof fn lemma_taken_skip<A, E>(
    p: Grammar<Located<A>, E>,
    texts: Seq<Seq<u8>>,
    facts: Seq<spec_fn(A) -> bool>,
)
    requires
        all_taken(p, texts, facts),
        texts.len() > 0,
    ensures
        all_taken(p, texts.skip(1), facts.skip(1)),
{
    assert forall|i: int| 0 <= i < texts.len() - 1 implies takes(
        p,
        #[trigger] texts.skip(1)[i],
        facts.skip(1)[i],
    ) by {
        assert(takes(p, texts[i + 1], facts[i + 1]));
    }
}

proof fn lemma_more_given<A, E>(
    p: Grammar<Located<A>, E>,
    min_indent: Col,
    closing: u8,
    texts: Seq<Seq<u8>>,
    facts: Seq<spec_fn(A) -> bool>,
    found: Seq<Located<SpacedView<A>>>,
    known_texts: Seq<Seq<u8>>,
    known: Seq<spec_fn(A) -> bool>,
    rest: Seq<u8>,
    s: StateView,
)
    requires
        all_taken(p, texts, facts),
        texts.len() > 0,
        holds(found, known_texts, known),
        closing != 0x2c,
        !starts_blank(seq![closing]),
        s.bytes == seq![0x2cu8, 0x20u8] + (comma_text(texts) + (seq![0x20u8, closing] + rest)),
        s.has_room(comma_text(texts).len() as int + 3),
    ensures
        more_delimited(list_mark::<E>(0x2c), list_entry(p, min_indent), found, s) matches Ok(
            (MadeProgress, list, end),
        ) && holds(list, known_texts + texts, known + facts) && end == s.skip(
            comma_text(texts).len() as int + 3,
        ),
    decreases texts.len(),
{
    let mark = list_mark::<E>(0x2c);
    let entry = list_entry(p, min_indent);
    let text = texts[0];
    let fact = facts[0];
    let len = text.len() as int;
    assert(takes(p, text, fact));
    let tail = if texts.len() == 1 {
        seq![0x20u8, closing] + rest
    } else {
        seq![0x2cu8, 0x20u8] + (comma_text(texts.skip(1)) + (seq![0x20u8, closing] + rest))
    };
    assert(s.bytes =~= seq![0x2cu8, 0x20u8] + (text + tail));
    if texts.len() == 1 {
        assert(tail.skip(1)[0] == closing);
        assert(seq![closing][0] == closing);
    }
    let a = lemma_next_given(p, min_indent, text, fact, tail, found, s);
    lemma_holds_push(found, known_texts, known, a, text, fact);
    if texts.len() == 1 {
        let end = s.skip(len + 3);
        assert(end.bytes =~= seq![closing] + rest);
        assert(end.bytes[0] == closing);
        assert(mark(end) matches Err((NoProgress, _, e)) && e == end);
        assert(more_delimited(mark, entry, found.push(a), end) matches Ok((MadeProgress, list, e))
            && list == found.push(a) && e == end);
        assert(known.push(fact) =~= known + facts);
        assert(known_texts.push(text) =~= known_texts + texts);
    } else {
        let s1 = s.skip(len + 2);
        assert(s1.bytes =~= tail);
        lemma_taken_skip(p, texts, facts);
        lemma_more_given(
            p,
            min_indent,
            closing,
            texts.skip(1),
            facts.skip(1),
            found.push(a),
            known_texts.push(text),
            known.push(fact),
            rest,
            s1,
        );
        let width = comma_text(texts.skip(1)).len() as int + 3;
        assert(known.push(fact) + facts.skip(1) =~= known + facts);
        assert(known_texts.push(text) + texts.skip(1) =~= known_texts + texts);
        assert(s1.skip(width) == s.skip(comma_text(texts).len() as int + 3)) by {
            assert(s1.bytes.skip(width) =~= s.bytes.skip(comma_text(texts).len() as int + 3));
        }
    }
}

/// A single space before an entry is left out of it.
proof fn lemma_space_then_entry<A, E>(
    p: Grammar<Located<A>, E>,
    min_indent: Col,
    s: StateView,
    s1: StateView,
)
    requires
        space0(min_indent)(s) == Ok::<_, (Progress, SpaceProblem, StateView)>(
            (MadeProgress, Seq::<CommentOrNewlineView>::empty(), s1),
        ),
        !starts_blank(s1.bytes),
        list_entry(p, min_indent)(s1) is Ok,
    ensures
        list_entry(p, min_indent)(s) matches Ok((_, entry, end)) && (list_entry(p, min_indent)(
            s1,
        ) matches Ok((_, entry1, end1)) && entry == entry1 && end == end1),
{
    lemma_no_space(min_indent, s1);
}

/// Spaces behind an opening bracket, before what is none.
proof fn lemma_spaces_given<E>(count: int, s: StateView)
    requires
        1 <= count <= 2,
        count < s.bytes.len(),
        s.has_room(count),
        forall|i: int| 0 <= i < count ==> #[trigger] s.bytes[i] == 0x20,
        s.bytes[count] != 0x20,
    ensures
        zero_or_more(list_space::<E>())(s) matches Ok((MadeProgress, _, end)) && end == s.skip(
            count,
        ),
{
    let space = list_space::<E>();
    assert(s.bytes[0] == 0x20);
    let s1 = s.skip(1);
    assert(space(s) matches Ok((_, _, end)) && end == s1);
    assert(s1.bytes[0] == s.bytes[1]);
    if count == 1 {
        assert(space(s1) matches Err((NoProgress, _, end)) && end == s1);
        assert(more(space, seq![()], s1) matches Ok((_, _, end)) && end == s1);
    } else {
        let s2 = s1.skip(1);
        assert(s.bytes[1] == 0x20);
        assert(s2.bytes[0] == s.bytes[2]);
        assert(space(s1) matches Ok((_, _, end)) && end == s2);
        assert(space(s2) matches Err((NoProgress, _, end)) && end == s2);
        assert(more(space, seq![()].push(()), s2) matches Ok((_, _, end)) && end == s2);
        assert(more(space, seq![()], s1) matches Ok((_, _, end)) && end == s2);
        assert(s2 == s.skip(2)) by {
            assert(s2.bytes =~= s.bytes.skip(2));
        }
    }
}

proof fn lemma_entries_given<A, E>(
    p: Grammar<Located<A>, E>,
    min_indent: Col,
    closing: u8,
    texts: Seq<Seq<u8>>,
    facts: Seq<spec_fn(A) -> bool>,
    rest: Seq<u8>,
    s: StateView,
)
    requires
        all_taken(p, texts, facts),
        texts.len() > 0,
        closing != 0x2c,
        !starts_blank(seq![closing]),
        s.bytes == comma_text(texts) + (seq![0x20u8, closing] + rest),
        s.has_room(comma_text(texts).len() as int + 1),
    ensures
        sep_by0(list_mark::<E>(0x2c), list_entry(p, min_indent))(s) matches Ok(
            (MadeProgress, list, end),
        ) && holds(list, texts, facts) && end == s.skip(comma_text(texts).len() as int + 1),
{
    let mark = list_mark::<E>(0x2c);
    let entry = list_entry(p, min_indent);
    let text = texts[0];
    let width = comma_text(texts).len() as int + 1;
    assert(takes(p, text, facts[0]));
    let tail = if texts.len() == 1 {
        seq![0x20u8, closing] + rest
    } else {
        seq![0x2cu8, 0x20u8] + (comma_text(texts.skip(1)) + (seq![0x20u8, closing] + rest))
    };
    assert(s.bytes =~= text + tail);
    assert(seq![closing][0] == closing);
    if texts.len() == 1 {
        assert(tail.skip(1)[0] == closing);
    }
    lemma_entry_given(p, min_indent, text, facts[0], tail, s);
    let a = entry(s)->Ok_0.1;
    assert(holds(seq![a], seq![text], seq![facts[0]]));
    if texts.len() == 1 {
        let end = s.skip(width);
        assert(end.bytes =~= seq![closing] + rest);
        assert(end.bytes[0] == closing);
        assert(mark(end) matches Err((NoProgress, _, e)) && e == end);
        assert(more_delimited(mark, entry, seq![a], end) matches Ok((MadeProgress, list, e)) && list
            == seq![a] && e == end);
        assert(facts =~= seq![facts[0]]);
        assert(texts =~= seq![text]);
    } else {
        let s1 = s.skip(text.len() as int);
        assert(s1.bytes =~= tail);
        lemma_taken_skip(p, texts, facts);
        lemma_more_given(
            p,
            min_indent,
            closing,
            texts.skip(1),
            facts.skip(1),
            seq![a],
            seq![text],
            seq![facts[0]],
            rest,
            s1,
        );
        let more_width = comma_text(texts.skip(1)).len() as int + 3;
        assert(seq![facts[0]] + facts.skip(1) =~= facts);
        assert(seq![text] + texts.skip(1) =~= texts);
        assert(s1.skip(more_width) == s.skip(width)) by {
            assert(s1.bytes.skip(more_width) =~= s.bytes.skip(width));
        }
    }
}

/// What stands between the brackets: where it is parsed, the list is.
proof fn lemma_brackets_given<V, E>(
    opening: u8,
    entries: Grammar<V, ListProblem<E>>,
    closing: u8,
    spaces: int,
    width: int,
    s: StateView,
)
    requires
        1 <= spaces <= 2,
        width >= 0,
        spaces + width + 1 < s.bytes.len(),
        s.has_room(spaces + width + 2),
        s.bytes[0] == opening,
        forall|i: int| 1 <= i <= spaces ==> #[trigger] s.bytes[i] == 0x20,
        s.bytes[spaces + 1] != 0x20,
        s.bytes[spaces + width + 1] == closing,
        entries(s.skip(spaces + 1)) matches Ok((_, _, end)) && end == s.skip(spaces + 1 + width),
    ensures
        bracketed(opening, entries, closing)(s) matches Ok((MadeProgress, value, end)) && (entries(
            s.skip(spaces + 1),
        ) matches Ok((_, value1, _)) && value == value1) && end == s.skip(spaces + width + 2),
{
    let s1 = s.skip(1);
    assert forall|i: int| 0 <= i < spaces implies #[trigger] s1.bytes[i] == 0x20 by {
        assert(s.bytes[i + 1] == 0x20);
    }
    assert(s1.bytes[spaces] == s.bytes[spaces + 1]);
    lemma_spaces_given::<E>(spaces, s1);
    assert(s1.skip(spaces) == s.skip(spaces + 1)) by {
        assert(s1.bytes.skip(spaces) =~= s.bytes.skip(spaces + 1));
    }
    let s3 = s.skip(spaces + 1 + width);
    assert(s3.bytes[0] == closing);
    assert(s3.skip(1) == s.skip(spaces + width + 2)) by {
        assert(s3.bytes.skip(1) =~= s.bytes.skip(spaces + width + 2));
    }
}

/// A list that is written from texts is parsed to one entry for each of them, in
/// their order, whatever their number.
pub proof fn law_list_given<A, E>(
    opening: u8,
    p: Grammar<Located<A>, E>,
    closing: u8,
    min_indent: Col,
    texts: Seq<Seq<u8>>,
    facts: Seq<spec_fn(A) -> bool>,
    rest: Seq<u8>,
    s: StateView,
)
    requires
        all_taken(p, texts, facts),
        refuses(p, closing),
        closing != 0x2c,
        !starts_blank(seq![closing]),
        s.bytes == list_text(opening, texts, closing) + rest,
        s.has_room(list_text(opening, texts, closing).len() as int),
    ensures
        collection_e(opening, p, 0x2c, closing, min_indent)(s) matches Ok((MadeProgress, list, end))
            && holds(list, texts, facts) && end == s.skip(
            list_text(opening, texts, closing).len() as int,
        ) && end.bytes == rest,
{
    let entries = sep_by0(list_mark::<E>(0x2c), list_entry(p, min_indent));
    let total = list_text(opening, texts, closing).len() as int;
    let inner = comma_text(texts) + (seq![0x20u8, closing] + rest);
    assert(s.bytes =~= seq![opening, 0x20u8] + inner);
    assert(seq![closing][0] == closing);
    assert(s.bytes[total - 1] == closing);
    assert(s.skip(total).bytes =~= rest);
    if texts.len() == 0 {
        assert(s.bytes =~= seq![opening, 0x20u8, 0x20u8, closing] + rest);
        let s2 = s.skip(3);
        assert(s2.bytes[0] == closing);
        lemma_no_space(min_indent, s2);
        assert(p(s2) matches Err((NoProgress, _, _)));
        assert(list_entry(p, min_indent)(s2) matches Err((NoProgress, _, _)));
        assert(entries(s2) matches Ok((_, list, end)) && list.len() == 0 && end == s2);
        lemma_brackets_given(opening, entries, closing, 2, 0, s);
    } else {
        let s2 = s.skip(2);
        assert(s2.bytes =~= inner);
        assert(takes(p, texts[0], facts[0]));
        assert(comma_text(texts)[0] == texts[0][0]);
        assert(s.bytes[2] == texts[0][0]);
        lemma_entries_given(p, min_indent, closing, texts, facts, rest, s2);
        let width = comma_text(texts).len() as int + 1;
        assert(s2.skip(width) == s.skip(2 + width)) by {
            assert(s2.bytes.skip(width) =~= s.bytes.skip(2 + width));
        }
        lemma_brackets_given(opening, entries, closing, 1, width, s);
    }
    reveal(collection_e);
}

} // verus!
