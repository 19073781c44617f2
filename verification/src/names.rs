//! What identifiers and module names are: which texts, and that parsing one
//! gives it back.

use crate::blankspace::SPACE;
use crate::grammar::{module_name, module_name_rest};
use crate::ident::{continues_ident, ident, ident_rest, lemma_dot_width, lemma_peek_width, Initial};
use crate::lex::peek;
use crate::problem::SyntaxError;
use crate::state::{MadeProgress, NoProgress, Progress, StateView};
use crate::unicode::{
    is_uppercase_letter, lemma_first_char_ascii, lemma_first_char_encoded, lemma_first_char_of_text,
};
use vstd::prelude::*;
use vstd::utf8::{decode_utf8, decode_utf8_encode_utf8, encode_utf8, valid_utf8};

verus! {

/// Whether `text` is an identifier with such an initial.
pub open spec fn is_ident(initial: Initial, text: Seq<char>) -> bool {
    text.len() > 0 && initial.accepts(text[0]) && continues_ident_text(text.skip(1))
}

/// Whether an identifier can go on with `text`.
pub open spec fn continues_ident_text(text: Seq<char>) -> bool {
    forall|i: int| 0 <= i < text.len() ==> continues_ident(#[trigger] text[i])
}

/// Whether an identifier that stands before `bytes` ends there.
pub open spec fn ends_ident(bytes: Seq<u8>) -> bool {
    bytes.len() == 0 || (peek(bytes) matches Ok((ch, _)) && !continues_ident(ch))
}

proof fn lemma_ident_rest_parsed(found: Seq<char>, s: StateView)
    ensures
        ident_rest(found, s) matches Ok((progress, name, s1)) ==> {
            let tail = name.skip(found.len() as int);
            &&& progress == MadeProgress
            &&& name == found + tail
            &&& continues_ident_text(tail)
            &&& s.bytes == encode_utf8(tail) + s1.bytes
            &&& s.has_room(encode_utf8(tail).len() as int)
            &&& s1 == s.skip(encode_utf8(tail).len() as int)
            &&& ends_ident(s1.bytes)
        },
    decreases s.bytes.len(),
{
    let nothing = found.skip(found.len() as int);
    assert(nothing =~= Seq::<char>::empty());
    assert(found =~= found + nothing);
    assert(s.bytes =~= encode_utf8(nothing) + s.bytes);
    assert(s.bytes.skip(0) =~= s.bytes);
    if s.bytes.len() > 0 {
        if let Ok((ch, width)) = peek(s.bytes) {
            lemma_first_char_encoded(s.bytes);
            if continues_ident(ch) && s.has_room(width) {
                let s1 = s.skip(width);
                lemma_ident_rest_parsed(found.push(ch), s1);
                if let Ok((_, name, s2)) = ident_rest(found.push(ch), s1) {
                    let after = name.skip(found.push(ch).len() as int);
                    let tail = name.skip(found.len() as int);
                    assert(name == found.push(ch) + after);
                    assert(tail =~= seq![ch] + after);
                    assert(tail.skip(1) =~= after);
                    assert(name =~= found + tail);
                    lemma_first_char_of_text(tail, Seq::empty());
                    assert(s.bytes =~= encode_utf8(tail) + s2.bytes);
                    assert(s2.bytes =~= s.bytes.skip(encode_utf8(tail).len() as int));
                }
            }
        }
    }
}

/// Parsing an identifier gives an identifier. It takes exactly the bytes of
/// that identifier, all in one line, and stops where it ends.
pub proof fn law_ident_parsed(initial: Initial, s: StateView)
    ensures
        ident(initial)(s) matches Ok((progress, name, s1)) ==> {
            &&& progress == MadeProgress
            &&& is_ident(initial, name)
            &&& s.bytes == encode_utf8(name) + s1.bytes
            &&& s.has_room(encode_utf8(name).len() as int)
            &&& s1 == s.skip(encode_utf8(name).len() as int)
            &&& ends_ident(s1.bytes)
        },
{
    if let Ok((first, width)) = peek(s.bytes) {
        lemma_first_char_encoded(s.bytes);
        if initial.accepts(first) && s.has_room(width) {
            let s1 = s.skip(width);
            lemma_ident_rest_parsed(seq![first], s1);
            if let Ok((_, name, s2)) = ident_rest(seq![first], s1) {
                assert(name == seq![first] + name.skip(1));
                lemma_first_char_of_text(name, Seq::empty());
                assert(s.bytes =~= encode_utf8(name) + s2.bytes);
                assert(s2.bytes =~= s.bytes.skip(encode_utf8(name).len() as int));
            }
        }
    }
}

proof fn lemma_ident_rest_progress(found: Seq<char>, s: StateView)
    ensures
        ident_rest(found, s) matches Err((progress, _, _)) ==> progress == MadeProgress,
    decreases s.bytes.len(),
{
    lemma_peek_width(s.bytes);
    if s.bytes.len() > 0 {
        if let Ok((ch, width)) = peek(s.bytes) {
            if continues_ident(ch) && s.has_room(width) {
                lemma_ident_rest_progress(found.push(ch), s.skip(width));
            }
        }
    }
}

/// An identifier that fails without progress leaves the input as it was.
pub proof fn law_ident_refused(initial: Initial, s: StateView)
    ensures
        ident(initial)(s) matches Err((NoProgress, _, s1)) ==> s1 == s,
{
    if let Ok((first, width)) = peek(s.bytes) {
        lemma_ident_rest_progress(seq![first], s.skip(width));
    }
}

proof fn lemma_ident_rest_given(found: Seq<char>, tail: Seq<char>, rest: Seq<u8>, s: StateView)
    requires
        continues_ident_text(tail),
        s.bytes == encode_utf8(tail) + rest,
        s.has_room(encode_utf8(tail).len() as int),
        ends_ident(rest),
    ensures
        ident_rest(found, s) == Ok::<_, (Progress, SyntaxError, StateView)>(
            (MadeProgress, found + tail, s.skip(encode_utf8(tail).len() as int)),
        ),
    decreases tail.len(),
{
    if tail.len() == 0 {
        assert(s.bytes =~= rest);
        assert(found + tail =~= found);
        assert(s.bytes.skip(0) =~= s.bytes);
    } else {
        let ch = tail[0];
        let s1 = s.skip(encode_utf8(seq![ch]).len() as int);
        lemma_first_char_of_text(tail, rest);
        lemma_ident_rest_given(found.push(ch), tail.skip(1), rest, s1);
        assert(found.push(ch) + tail.skip(1) =~= found + tail);
        assert(s1.bytes.skip(encode_utf8(tail.skip(1)).len() as int) =~= s.bytes.skip(
            encode_utf8(tail).len() as int,
        ));
    }
}

/// Where an identifier stands, parsing gives that identifier back and stops
/// behind it. It must fit its line, and what follows must not go on with it.
pub proof fn law_ident_given(initial: Initial, name: Seq<char>, rest: Seq<u8>, s: StateView)
    requires
        is_ident(initial, name),
        s.bytes == encode_utf8(name) + rest,
        s.has_room(encode_utf8(name).len() as int),
        ends_ident(rest),
    ensures
        ident(initial)(s) == Ok::<_, (Progress, SyntaxError, StateView)>(
            (MadeProgress, name, s.skip(encode_utf8(name).len() as int)),
        ),
{
    let first = name[0];
    let s1 = s.skip(encode_utf8(seq![first]).len() as int);
    lemma_first_char_of_text(name, rest);
    lemma_ident_rest_given(seq![first], name.skip(1), rest, s1);
    assert(seq![first] + name.skip(1) =~= name);
    assert(s1.bytes.skip(encode_utf8(name.skip(1)).len() as int) =~= s.bytes.skip(
        encode_utf8(name).len() as int,
    ));
}

/// Whether a module name can go on with `text`: letters and digits, and dots
/// that each stand before an uppercase letter.
pub open spec fn continues_module_name(text: Seq<char>) -> bool
    decreases text.len(),
{
    if text.len() == 0 {
        true
    } else if continues_ident(text[0]) {
        continues_module_name(text.skip(1))
    } else {
        &&& text[0] == '.'
        &&& text.len() > 1
        &&& is_uppercase_letter(text[1])
        &&& continues_module_name(text.skip(2))
    }
}

/// Whether `text` is a module name.
pub open spec fn is_module_name(text: Seq<char>) -> bool {
    text.len() > 0 && is_uppercase_letter(text[0]) && continues_module_name(text.skip(1))
}

/// Whether a module name that stands before `bytes` ends there. They start with
/// a character that does not go on with it; a dot is followed by a character
/// that is no uppercase letter.
pub open spec fn ends_module_name(bytes: Seq<u8>) -> bool {
    bytes.len() == 0 || (peek(bytes) matches Ok((ch, _)) && !continues_ident(ch) && (ch == '.' ==> (
    peek(bytes.skip(1)) matches Ok((next, _)) && !is_uppercase_letter(next))))
}

/// What a module name that starts with `found` goes on with.
spec fn rest_of_name(found: Seq<char>, name: Seq<char>, s: StateView, s1: StateView) -> bool {
    let tail = name.skip(found.len() as int);
    &&& name == found + tail
    &&& continues_module_name(tail)
    &&& s.bytes == encode_utf8(tail) + s1.bytes
    &&& s.has_room(encode_utf8(tail).len() as int)
    &&& s1 == s.skip(encode_utf8(tail).len() as int)
    &&& ends_module_name(s1.bytes)
}

proof fn lemma_nothing_left(found: Seq<char>, s: StateView)
    requires
        ends_module_name(s.bytes),
    ensures
        rest_of_name(found, found, s, s),
{
    let tail = found.skip(found.len() as int);
    assert(tail =~= Seq::<char>::empty());
    assert(found =~= found + tail);
    assert(s.bytes =~= encode_utf8(tail) + s.bytes);
    assert(s.bytes.skip(0) =~= s.bytes);
}

proof fn lemma_more_of_name(
    found: Seq<char>,
    more: Seq<char>,
    name: Seq<char>,
    s: StateView,
    s1: StateView,
    s2: StateView,
)
    requires
        s.bytes == encode_utf8(more) + s1.bytes,
        s.has_room(encode_utf8(more).len() as int),
        s1 == s.skip(encode_utf8(more).len() as int),
        rest_of_name(found + more, name, s1, s2),
        more_of_name(more, name.skip((found + more).len() as int)),
    ensures
        rest_of_name(found, name, s, s2),
{
    let tail = name.skip((found + more).len() as int);
    assert(name == (found + more) + tail);
    assert(name.skip(found.len() as int) =~= more + tail);
    assert(name =~= found + (more + tail));
    assert(s.bytes =~= encode_utf8(more + tail) + s2.bytes);
    assert(s2.bytes =~= s.bytes.skip(encode_utf8(more + tail).len() as int));
}

/// `more` can stand before what a module name goes on with.
spec fn more_of_name(more: Seq<char>, tail: Seq<char>) -> bool {
    &&& continues_module_name(tail) ==> continues_module_name(more + tail)
    &&& encode_utf8(more + tail) == encode_utf8(more) + encode_utf8(tail)
}

proof fn lemma_more_char(ch: char, tail: Seq<char>)
    requires
        continues_ident(ch),
    ensures
        more_of_name(seq![ch], tail),
{
    let text = seq![ch] + tail;
    lemma_first_char_of_text(text, Seq::empty());
    assert(text.skip(1) =~= tail);
}

proof fn lemma_more_part(ch: char, tail: Seq<char>)
    requires
        !continues_ident('.'),
        is_uppercase_letter(ch),
    ensures
        more_of_name(seq!['.', ch], tail),
        encode_utf8(seq!['.', ch]) == encode_utf8(seq!['.']) + encode_utf8(seq![ch]),
{
    let text = seq!['.', ch] + tail;
    assert(text.skip(2) =~= tail);
    lemma_first_char_of_text(seq!['.', ch], Seq::empty());
    assert(seq!['.', ch].skip(1) =~= seq![ch]);
    lemma_first_char_of_text(text, Seq::empty());
    assert(text.skip(1) =~= seq![ch] + tail);
    lemma_first_char_of_text(seq![ch] + tail, Seq::empty());
    assert((seq![ch] + tail).skip(1) =~= tail);
    assert(encode_utf8(text) =~= encode_utf8(seq!['.', ch]) + encode_utf8(tail));
}

proof fn lemma_name_rest_parsed(found: Seq<char>, s: StateView)
    ensures
        module_name_rest(found, s) matches Ok((progress, name, s1)) ==> {
            &&& progress == MadeProgress
            &&& rest_of_name(found, name, s, s1)
        },
    decreases s.bytes.len(),
{
    if s.bytes.len() == 0 {
        lemma_nothing_left(found, s);
    } else if let Ok((ch, width)) = peek(s.bytes) {
        lemma_first_char_encoded(s.bytes);
        if continues_ident(ch) {
            if s.has_room(width) {
                let s1 = s.skip(width);
                lemma_name_rest_parsed(found.push(ch), s1);
                assert(found.push(ch) =~= found + seq![ch]);
                if let Ok((_, name, s2)) = module_name_rest(found.push(ch), s1) {
                    lemma_more_char(ch, name.skip((found + seq![ch]).len() as int));
                    lemma_more_of_name(found, seq![ch], name, s, s1, s2);
                }
            }
        } else if ch == '.' {
            if let Ok((next, next_width)) = peek(s.bytes.skip(1)) {
                lemma_dot_width(s.bytes);
                lemma_first_char_encoded(s.bytes.skip(1));
                if is_uppercase_letter(next) {
                    if s.has_room(width + next_width) {
                        let s1 = s.skip(width + next_width);
                        let found1 = found.push('.').push(next);
                        lemma_name_rest_parsed(found1, s1);
                        assert(found1 =~= found + seq!['.', next]);
                        if let Ok((_, name, s2)) = module_name_rest(found1, s1) {
                            let more = seq!['.', next];
                            lemma_more_part(next, name.skip((found + more).len() as int));
                            assert(s.bytes =~= encode_utf8(more) + s1.bytes);
                            lemma_more_of_name(found, more, name, s, s1, s2);
                        }
                    }
                } else {
                    lemma_nothing_left(found, s);
                }
            }
        } else {
            lemma_nothing_left(found, s);
        }
    }
}

/// Parsing a module name gives a module name. It takes exactly the bytes of
/// that name, all in one line, and stops where the name ends.
pub proof fn law_module_name_parsed(s: StateView)
    ensures
        module_name()(s) matches Ok((progress, name, s1)) ==> {
            &&& progress == MadeProgress
            &&& is_module_name(name)
            &&& s.bytes == encode_utf8(name) + s1.bytes
            &&& s.has_room(encode_utf8(name).len() as int)
            &&& s1 == s.skip(encode_utf8(name).len() as int)
            &&& ends_module_name(s1.bytes)
        },
{
    if let Ok((first, width)) = peek(s.bytes) {
        lemma_first_char_encoded(s.bytes);
        if is_uppercase_letter(first) && s.has_room(width) {
            let s1 = s.skip(width);
            lemma_name_rest_parsed(seq![first], s1);
            if let Ok((_, name, s2)) = module_name_rest(seq![first], s1) {
                let tail = name.skip(1);
                assert(name == seq![first] + tail);
                lemma_first_char_of_text(name, Seq::empty());
                assert(s.bytes =~= encode_utf8(name) + s2.bytes);
                assert(s2.bytes =~= s.bytes.skip(encode_utf8(name).len() as int));
            }
        }
    }
}

proof fn lemma_name_rest_given(found: Seq<char>, tail: Seq<char>, rest: Seq<u8>, s: StateView)
    requires
        continues_module_name(tail),
        s.bytes == encode_utf8(tail) + rest,
        s.has_room(encode_utf8(tail).len() as int),
        ends_module_name(rest),
    ensures
        module_name_rest(found, s) == Ok::<_, (Progress, SyntaxError, StateView)>(
            (MadeProgress, found + tail, s.skip(encode_utf8(tail).len() as int)),
        ),
    decreases tail.len(),
{
    if tail.len() == 0 {
        assert(s.bytes =~= rest);
        assert(found + tail =~= found);
        assert(s.bytes.skip(0) =~= s.bytes);
    } else {
        let ch = tail[0];
        let width = encode_utf8(seq![ch]).len() as int;
        lemma_first_char_of_text(tail, rest);
        if continues_ident(ch) {
            let s1 = s.skip(width);
            lemma_name_rest_given(found.push(ch), tail.skip(1), rest, s1);
            assert(found.push(ch) + tail.skip(1) =~= found + tail);
            assert(s1.bytes.skip(encode_utf8(tail.skip(1)).len() as int) =~= s.bytes.skip(
                encode_utf8(tail).len() as int,
            ));
        } else {
            let next = tail[1];
            let next_width = encode_utf8(seq![next]).len() as int;
            lemma_dot_width(s.bytes);
            lemma_first_char_of_text(tail.skip(1), rest);
            assert(tail.skip(1).skip(1) =~= tail.skip(2));
            let s1 = s.skip(width + next_width);
            assert(s1.bytes =~= s.bytes.skip(1).skip(next_width));
            let found1 = found.push('.').push(next);
            lemma_name_rest_given(found1, tail.skip(2), rest, s1);
            assert(found1 + tail.skip(2) =~= found + tail);
            assert(s1.bytes.skip(encode_utf8(tail.skip(2)).len() as int) =~= s.bytes.skip(
                encode_utf8(tail).len() as int,
            ));
        }
    }
}

/// Where a module name stands, parsing gives that name back and stops behind
/// it. The name must fit its line, and what follows must not go on with it.
pub proof fn law_module_name_given(name: Seq<char>, rest: Seq<u8>, s: StateView)
    requires
        is_module_name(name),
        s.bytes == encode_utf8(name) + rest,
        s.has_room(encode_utf8(name).len() as int),
        ends_module_name(rest),
    ensures
        module_name()(s) == Ok::<_, (Progress, SyntaxError, StateView)>(
            (MadeProgress, name, s.skip(encode_utf8(name).len() as int)),
        ),
{
    let first = name[0];
    let width = encode_utf8(seq![first]).len() as int;
    lemma_first_char_of_text(name, rest);
    let s1 = s.skip(width);
    lemma_name_rest_given(seq![first], name.skip(1), rest, s1);
    assert(seq![first] + name.skip(1) =~= name);
    assert(s1.bytes.skip(encode_utf8(name.skip(1)).len() as int) =~= s.bytes.skip(
        encode_utf8(name).len() as int,
    ));
}

/// A blank behind a module name does not change it, whatever stands behind the
/// blank.
pub proof fn law_module_name_before_blank(s: StateView, t: StateView, behind: Seq<u8>)
    requires
        t == (StateView { bytes: s.bytes + (seq![SPACE] + behind), ..s }),
    ensures
        module_name()(s) matches Ok((_, name, s1)) ==> (s1.bytes.len() == 0 ==> {
            &&& module_name()(t) matches Ok((MadeProgress, name1, t1))
            &&& name1 == name
            &&& t1.bytes == seq![SPACE] + behind
        }),
{
    law_module_name_parsed(s);
    if let Ok((_, name, s1)) = module_name()(s) {
        if s1.bytes.len() == 0 {
            let rest = seq![SPACE] + behind;
            assert(s.bytes =~= encode_utf8(name));
            lemma_first_char_ascii(' ', behind);
            law_module_name_given(name, rest, t);
            assert(t.bytes.skip(encode_utf8(name).len() as int) =~= rest);
        }
    }
}

/// A text that parses as a module name, but for the dot that it ends in.
pub open spec fn ends_in_dot(text: Seq<char>) -> bool {
    text.len() > 0 && text.last() == '.' && is_module_name(text.drop_last())
}

proof fn lemma_name_rest_refused(found: Seq<char>, text: Seq<char>, s: StateView)
    requires
        s.bytes == encode_utf8(text),
        s.has_room(s.bytes.len() as int),
    ensures
        module_name_rest(found, s) is Err <==> text.len() > 0 && text.last() == '.'
            && continues_module_name(text.drop_last()),
    decreases text.len(),
{
    if text.len() == 0 {
        assert(s.bytes.len() == 0);
    } else {
        let ch = text[0];
        let width = encode_utf8(seq![ch]).len() as int;
        lemma_first_char_of_text(text, Seq::empty());
        assert(s.bytes + Seq::<u8>::empty() =~= s.bytes);
        assert(encode_utf8(text.skip(1)) + Seq::<u8>::empty() =~= encode_utf8(text.skip(1)));
        if continues_ident(ch) {
            lemma_name_rest_refused(found.push(ch), text.skip(1), s.skip(width));
            if text.len() > 1 {
                assert(text.drop_last().skip(1) =~= text.skip(1).drop_last());
            }
        } else if ch == '.' {
            lemma_dot_width(s.bytes);
            let after = text.skip(1);
            if after.len() == 0 {
                assert(s.bytes.skip(1).len() == 0);
            } else {
                let next = after[0];
                let next_width = encode_utf8(seq![next]).len() as int;
                lemma_first_char_of_text(after, Seq::empty());
                assert(encode_utf8(after) + Seq::<u8>::empty() =~= encode_utf8(after));
                assert(after.skip(1) =~= text.skip(2));
                if is_uppercase_letter(next) {
                    let s1 = s.skip(width + next_width);
                    assert(encode_utf8(text.skip(2)) + Seq::<u8>::empty() =~= encode_utf8(
                        text.skip(2),
                    ));
                    assert(s1.bytes =~= s.bytes.skip(1).skip(next_width));
                    lemma_name_rest_refused(found.push('.').push(next), text.skip(2), s1);
                    if text.len() > 2 {
                        assert(text.drop_last().skip(2) =~= text.skip(2).drop_last());
                    }
                }
            }
        }
    }
}

/// Text that fits its line is refused as a module name in three cases, and in no
/// other: where it is empty, where it does not start with an uppercase letter,
/// and where it is a module name and a dot behind it.
pub proof fn law_module_name_refused(s: StateView)
    requires
        valid_utf8(s.bytes),
        s.has_room(s.bytes.len() as int),
    ensures
        ({
            let text = decode_utf8(s.bytes);
            module_name()(s) is Err <==> text.len() == 0 || !is_uppercase_letter(text[0])
                || ends_in_dot(text)
        }),
{
    let text = decode_utf8(s.bytes);
    decode_utf8_encode_utf8(s.bytes);
    if text.len() == 0 {
        assert(s.bytes.len() == 0);
    } else {
        let first = text[0];
        lemma_first_char_of_text(text, Seq::empty());
        assert(s.bytes + Seq::<u8>::empty() =~= s.bytes);
        assert(encode_utf8(text.skip(1)) + Seq::<u8>::empty() =~= encode_utf8(text.skip(1)));
        if is_uppercase_letter(first) {
            let width = encode_utf8(seq![first]).len() as int;
            lemma_name_rest_refused(seq![first], text.skip(1), s.skip(width));
            if text.len() > 1 {
                assert(text.drop_last().skip(1) =~= text.skip(1).drop_last());
            }
        }
    }
}

/// Texts with dots between them.
pub open spec fn dotted(parts: Seq<Seq<char>>) -> Seq<char>
    decreases parts.len(),
{
    if parts.len() == 0 {
        Seq::empty()
    } else if parts.len() == 1 {
        parts[0]
    } else {
        parts[0] + (seq!['.'] + dotted(parts.skip(1)))
    }
}

/// The parts of a module name: identifiers that start with an uppercase letter.
pub open spec fn are_parts(parts: Seq<Seq<char>>) -> bool {
    &&& parts.len() > 0
    &&& forall|i: int| 0 <= i < parts.len() ==> is_ident(Initial::Uppercase, #[trigger] parts[i])
}

proof fn lemma_ident_text_before(text: Seq<char>, tail: Seq<char>)
    requires
        continues_ident_text(text),
        continues_module_name(tail),
    ensures
        continues_module_name(text + tail),
    decreases text.len(),
{
    if text.len() == 0 {
        assert(text + tail =~= tail);
    } else {
        assert(continues_ident_text(text.skip(1)));
        lemma_ident_text_before(text.skip(1), tail);
        assert((text + tail).skip(1) =~= text.skip(1) + tail);
    }
}

/// Parts with dots between them are a module name.
pub proof fn law_parts_are_module_name(parts: Seq<Seq<char>>)
    requires
        are_parts(parts),
    ensures
        is_module_name(dotted(parts)),
    decreases parts.len(),
{
    let part = parts[0];
    if parts.len() == 1 {
        lemma_ident_text_before(part.skip(1), Seq::empty());
        assert(part.skip(1) + Seq::<char>::empty() =~= part.skip(1));
    } else {
        let rest = dotted(parts.skip(1));
        assert(are_parts(parts.skip(1)));
        law_parts_are_module_name(parts.skip(1));
        let tail = seq!['.'] + rest;
        assert(tail.skip(2) =~= rest.skip(1));
        lemma_ident_text_before(part.skip(1), tail);
        assert((part + tail).skip(1) =~= part.skip(1) + tail);
    }
}

/// Where the first part ends that a module name goes on with.
proof fn lemma_end_of_part(text: Seq<char>) -> (end: int)
    requires
        continues_module_name(text),
    ensures
        0 <= end <= text.len(),
        continues_ident_text(text.take(end)),
        end < text.len() ==> text[end] == '.' && is_module_name(text.skip(end + 1)),
    decreases text.len(),
{
    if text.len() == 0 {
        0
    } else if continues_ident(text[0]) {
        let end = lemma_end_of_part(text.skip(1));
        assert(text.take(end + 1).skip(1) =~= text.skip(1).take(end));
        assert forall|i: int| 0 <= i < end + 1 implies continues_ident(
            #[trigger] text.take(end + 1)[i],
        ) by {
            if i > 0 {
                assert(text.take(end + 1)[i] == text.skip(1).take(end)[i - 1]);
            }
        }
        if end + 1 < text.len() {
            assert(text.skip(1).skip(end + 1) =~= text.skip(end + 2));
        }
        end + 1
    } else {
        assert(text.skip(1).skip(1) =~= text.skip(2));
        0
    }
}

/// A module name is made of parts, with dots between them.
pub proof fn law_module_name_has_parts(name: Seq<char>) -> (parts: Seq<Seq<char>>)
    requires
        is_module_name(name),
    ensures
        are_parts(parts),
        dotted(parts) == name,
    decreases name.len(),
{
    let end = 1 + lemma_end_of_part(name.skip(1));
    let part = name.take(end);
    assert(part.skip(1) =~= name.skip(1).take(end - 1));
    assert(is_ident(Initial::Uppercase, part));
    if end == name.len() {
        assert(part =~= name);
        seq![part]
    } else {
        assert(name.skip(1).skip(end) =~= name.skip(end + 1));
        let rest = law_module_name_has_parts(name.skip(end + 1));
        let parts = seq![part] + rest;
        assert(parts.skip(1) =~= rest);
        assert(dotted(parts) =~= name);
        parts
    }
}

} // verus!
