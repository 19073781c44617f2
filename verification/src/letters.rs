//! Which characters names are made of, one by one.

use crate::grammar::{module_name, module_name_rest};
use crate::ident::{
    continues_ident, ident, ident_rest, lemma_dot_width, lowercase_ident, unqualified_ident,
    uppercase_ident, Initial,
};
use crate::lex::peek;
use crate::names::{
    continues_ident_text, continues_module_name, ends_ident, ends_module_name, is_ident,
    is_module_name, law_ident_given, law_ident_parsed, law_module_name_given,
};
use crate::parts::fails;
use crate::problem::SyntaxError;
use crate::state::{MadeProgress, NoProgress, StateView};
use crate::unicode::{
    lemma_first_char_ascii, lemma_first_char_of_text, unicode_alphabetic, unicode_lowercase,
    unicode_uppercase,
};
use vstd::prelude::*;
use vstd::utf8::encode_utf8;

verus! {

/// `A` to `Z`, `a` to `z` and `0` to `9`, and the letters beyond ASCII.
pub open spec fn letter_or_digit(ch: char) -> bool {
    ||| 'A' <= ch <= 'Z'
    ||| 'a' <= ch <= 'z'
    ||| '0' <= ch <= '9'
    ||| ch > '\u{7f}' && unicode_alphabetic(ch)
}

/// `A` to `Z`, and the uppercase letters beyond ASCII.
pub open spec fn capital(ch: char) -> bool {
    ||| 'A' <= ch <= 'Z'
    ||| ch > '\u{7f}' && unicode_uppercase(ch)
}

/// A byte that stands for a character of its own, but for no letter and no digit.
pub open spec fn breaks_name(byte: u8) -> bool {
    byte < 0x80 && !(0x30 <= byte <= 0x39) && !(0x41 <= byte <= 0x5a) && !(0x61 <= byte <= 0x7a)
}

/// Which texts identifiers are: a letter of the right kind, and letters and digits
/// behind it.
pub proof fn law_ident_letters(text: Seq<char>)
    ensures
        is_ident(Initial::Lowercase, text) <==> {
            &&& text.len() > 0
            &&& 'a' <= text[0] <= 'z' || (text[0] > '\u{7f}' && unicode_lowercase(text[0]))
            &&& forall|i: int| 1 <= i < text.len() ==> letter_or_digit(#[trigger] text[i])
        },
        is_ident(Initial::Uppercase, text) <==> {
            &&& text.len() > 0
            &&& 'A' <= text[0] <= 'Z' || (text[0] > '\u{7f}' && unicode_uppercase(text[0]))
            &&& forall|i: int| 1 <= i < text.len() ==> letter_or_digit(#[trigger] text[i])
        },
        is_ident(Initial::Alphabetic, text) <==> {
            &&& text.len() > 0
            &&& 'A' <= text[0] <= 'Z' || 'a' <= text[0] <= 'z' || (text[0] > '\u{7f}'
                && unicode_alphabetic(text[0]))
            &&& forall|i: int| 1 <= i < text.len() ==> letter_or_digit(#[trigger] text[i])
        },
{
    if text.len() > 0 {
        assert(continues_ident_text(text.skip(1)) <==> forall|i: int|
            1 <= i < text.len() ==> letter_or_digit(#[trigger] text[i])) by {
            if continues_ident_text(text.skip(1)) {
                assert forall|i: int| 1 <= i < text.len() implies letter_or_digit(
                    #[trigger] text[i],
                ) by {
                    assert(continues_ident(text.skip(1)[i - 1]));
                }
            }
            if forall|i: int| 1 <= i < text.len() ==> letter_or_digit(#[trigger] text[i]) {
                assert forall|i: int| 0 <= i < text.skip(1).len() implies continues_ident(
                    #[trigger] text.skip(1)[i],
                ) by {
                    assert(letter_or_digit(text[i + 1]));
                }
            }
        }
    }
}

/// Whether a module name can go on with `text`, character by character: letters and
/// digits, and dots with a capital letter behind each of them.
pub open spec fn goes_on_with(text: Seq<char>) -> bool {
    forall|i: int| 0 <= i < text.len() ==> goes_on_at(text, i)
}

/// Whether the character at `i` can stand where it does.
pub open spec fn goes_on_at(text: Seq<char>, i: int) -> bool {
    ||| letter_or_digit(text[i])
    ||| text[i] == '.' && i + 1 < text.len() && capital(text[i + 1])
    ||| i > 0 && text[i - 1] == '.' && capital(text[i])
}

proof fn lemma_goes_on_with(text: Seq<char>)
    ensures
        continues_module_name(text) <==> goes_on_with(text),
    decreases text.len(),
{
    if text.len() > 0 {
        if continues_ident(text[0]) {
            let rest = text.skip(1);
            lemma_goes_on_with(rest);
            assert forall|i: int| 0 <= i < rest.len() implies goes_on_at(rest, i)
                == #[trigger] goes_on_at(text, i + 1) by {}
            if goes_on_with(rest) {
                assert forall|i: int| 0 <= i < text.len() implies goes_on_at(text, i) by {
                    if i > 0 {
                        assert(goes_on_at(rest, i - 1));
                        assert(goes_on_at(text, i - 1 + 1));
                    }
                }
            }
            if goes_on_with(text) {
                assert forall|i: int| 0 <= i < rest.len() implies goes_on_at(rest, i) by {
                    assert(goes_on_at(text, i + 1));
                }
            }
        } else {
            assert(goes_on_at(text, 0) <==> text[0] == '.' && text.len() > 1 && capital(text[1]));
            if text.len() > 1 && text[0] == '.' && capital(text[1]) {
                let rest = text.skip(2);
                lemma_goes_on_with(rest);
                assert forall|i: int| 0 <= i < rest.len() implies goes_on_at(rest, i)
                    == #[trigger] goes_on_at(text, i + 2) by {}
                if goes_on_with(rest) {
                    assert forall|i: int| 0 <= i < text.len() implies goes_on_at(text, i) by {
                        if i > 1 {
                            assert(goes_on_at(rest, i - 2));
                            assert(goes_on_at(text, i - 2 + 2));
                        }
                    }
                }
                if goes_on_with(text) {
                    assert forall|i: int| 0 <= i < rest.len() implies goes_on_at(rest, i) by {
                        assert(goes_on_at(text, i + 2));
                    }
                }
            }
        }
    }
}

/// Which texts module names are: a capital letter, and behind it letters, digits,
/// and dots with a capital letter behind each of them.
pub proof fn law_module_name_letters(text: Seq<char>)
    ensures
        is_module_name(text) <==> text.len() > 0 && capital(text[0]) && goes_on_with(text.skip(1)),
{
    if text.len() > 0 {
        lemma_goes_on_with(text.skip(1));
    }
}

/// What a name ends before: blank space, brackets and other marks, and the end of
/// the input. A letter or a digit goes on with it.
pub proof fn law_name_ends(ch: char, rest: Seq<u8>)
    ensures
        ends_ident(Seq::empty()),
        ends_module_name(Seq::empty()),
        letter_or_digit(ch) ==> !ends_ident(encode_utf8(seq![ch]) + rest) && !ends_module_name(
            encode_utf8(seq![ch]) + rest,
        ),
        !letter_or_digit(ch) ==> ends_ident(encode_utf8(seq![ch]) + rest),
        !letter_or_digit(ch) && ch != '.' ==> ends_module_name(encode_utf8(seq![ch]) + rest),
{
    lemma_first_char_of_text(seq![ch], rest);
}

/// A dot ends a module name where no capital letter stands behind it, and goes on
/// with it where one does.
pub proof fn law_module_name_dot(next: char, rest: Seq<u8>)
    ensures
        ends_module_name(encode_utf8(seq!['.', next]) + rest) <==> !capital(next),
{
    let text = seq!['.', next];
    lemma_first_char_of_text(text, rest);
    lemma_first_char_ascii('.', Seq::empty());
    assert(text.skip(1) =~= seq![next]);
    lemma_first_char_of_text(seq![next], rest);
}

/// What stands behind a name, where a byte says that it ends.
proof fn lemma_byte_breaks_name(rest: Seq<u8>)
    requires
        rest.len() == 0 || (breaks_name(rest[0]) && rest[0] != 0x2e),
    ensures
        ends_ident(rest),
        ends_module_name(rest),
{
    if rest.len() > 0 {
        let ch = rest[0] as char;
        lemma_first_char_ascii(ch, rest.skip(1));
        assert(rest =~= seq![ch as u8] + rest.skip(1));
    }
}

/// Each of `0` to `9`, each of `A` to `Z` and `a` to `z`, and each letter beyond
/// ASCII goes on with a module name: with it at its end, the name is a module name
/// too, and where that stands, parsing gives it back whole.
pub proof fn law_module_name_goes_on(name: Seq<char>, ch: char, rest: Seq<u8>, s: StateView)
    requires
        is_module_name(name),
        '0' <= ch <= '9' || 'A' <= ch <= 'Z' || 'a' <= ch <= 'z' || (ch > '\u{7f}'
            && unicode_alphabetic(ch)),
        s.bytes == encode_utf8(name.push(ch)) + rest,
        s.has_room(encode_utf8(name.push(ch)).len() as int),
        rest.len() == 0 || (breaks_name(rest[0]) && rest[0] != 0x2e),
    ensures
        is_module_name(name.push(ch)),
        module_name()(s) matches Ok((MadeProgress, found, end)) && found == name.push(ch)
            && end.bytes == rest && end.line == s.line && end.column == s.column + encode_utf8(
            name.push(ch),
        ).len(),
{
    let longer = name.push(ch);
    law_module_name_letters(name);
    law_module_name_letters(longer);
    assert forall|i: int| 0 <= i < longer.skip(1).len() implies goes_on_at(longer.skip(1), i) by {
        if i + 1 < name.len() {
            assert(goes_on_at(name.skip(1), i));
        }
    }
    lemma_byte_breaks_name(rest);
    law_module_name_given(longer, rest, s);
    assert(s.bytes.skip(encode_utf8(longer).len() as int) =~= rest);
}

/// Each capital letter behind a dot goes on with a module name.
pub proof fn law_module_name_goes_on_behind_dot(
    name: Seq<char>,
    ch: char,
    rest: Seq<u8>,
    s: StateView,
)
    requires
        is_module_name(name),
        'A' <= ch <= 'Z' || (ch > '\u{7f}' && unicode_uppercase(ch)),
        s.bytes == encode_utf8(name + seq!['.', ch]) + rest,
        s.has_room(encode_utf8(name + seq!['.', ch]).len() as int),
        rest.len() == 0 || (breaks_name(rest[0]) && rest[0] != 0x2e),
    ensures
        is_module_name(name + seq!['.', ch]),
        module_name()(s) matches Ok((MadeProgress, found, end)) && found == name + seq!['.', ch]
            && end.bytes == rest && end.line == s.line && end.column == s.column + encode_utf8(
            name + seq!['.', ch],
        ).len(),
{
    let longer = name + seq!['.', ch];
    law_module_name_letters(name);
    law_module_name_letters(longer);
    let n = name.len() as int;
    assert forall|i: int| 0 <= i < longer.skip(1).len() implies goes_on_at(longer.skip(1), i) by {
        if i + 1 < n {
            assert(goes_on_at(name.skip(1), i));
        }
    }
    lemma_byte_breaks_name(rest);
    law_module_name_given(longer, rest, s);
    assert(s.bytes.skip(encode_utf8(longer).len() as int) =~= rest);
}

/// Each of `0` to `9`, each of `A` to `Z` and `a` to `z`, and each letter beyond
/// ASCII goes on with an identifier: with it at its end, the name is an identifier
/// too, and where that stands, parsing gives it back whole.
pub proof fn law_ident_goes_on(
    initial: Initial,
    name: Seq<char>,
    ch: char,
    rest: Seq<u8>,
    s: StateView,
)
    requires
        is_ident(initial, name),
        '0' <= ch <= '9' || 'A' <= ch <= 'Z' || 'a' <= ch <= 'z' || (ch > '\u{7f}'
            && unicode_alphabetic(ch)),
        s.bytes == encode_utf8(name.push(ch)) + rest,
        s.has_room(encode_utf8(name.push(ch)).len() as int),
        rest.len() == 0 || breaks_name(rest[0]),
    ensures
        is_ident(initial, name.push(ch)),
        ident(initial)(s) matches Ok((MadeProgress, found, end)) && found == name.push(ch)
            && end.bytes == rest && end.line == s.line && end.column == s.column + encode_utf8(
            name.push(ch),
        ).len(),
{
    let longer = name.push(ch);
    assert(longer.skip(1) =~= name.skip(1).push(ch));
    assert forall|i: int| 0 <= i < longer.skip(1).len() implies continues_ident(
        #[trigger] longer.skip(1)[i],
    ) by {
        if i + 1 < name.len() {
            assert(continues_ident(name.skip(1)[i]));
        }
    }
    if rest.len() > 0 {
        let first = rest[0] as char;
        lemma_first_char_ascii(first, rest.skip(1));
        assert(rest =~= seq![first as u8] + rest.skip(1));
    }
    law_ident_given(initial, longer, rest, s);
    assert(s.bytes.skip(encode_utf8(longer).len() as int) =~= rest);
}

/// Where no letter of the right kind comes next, there is no identifier: nothing is
/// taken, and something else may stand in its place.
pub proof fn law_ident_missing(initial: Initial, s: StateView)
    ensures
        s.bytes.len() == 0 ==> (ident(initial)(s) matches Err(
            (NoProgress, SyntaxError::Eof(region), at),
        ) && region.start_line == 0 && region.end_line == 0 && region.start_col == 0
            && region.end_col == 0 && at == s),
        s.bytes.len() > 0 && peek(s.bytes) is Err ==> fails(
            ident(initial)(s),
            NoProgress,
            SyntaxError::BadUtf8,
            s,
        ),
        peek(s.bytes) matches Ok((ch, _)) ==> (!(match initial {
            Initial::Lowercase => 'a' <= ch <= 'z' || (ch > '\u{7f}' && unicode_lowercase(ch)),
            Initial::Uppercase => 'A' <= ch <= 'Z' || (ch > '\u{7f}' && unicode_uppercase(ch)),
            Initial::Alphabetic => 'A' <= ch <= 'Z' || 'a' <= ch <= 'z' || (ch > '\u{7f}'
                && unicode_alphabetic(ch)),
        }) ==> (ident(initial)(s) matches Err((NoProgress, SyntaxError::Unexpected(region), at))
            && region.start_line == s.line && region.start_col == s.column && region.end_line
            == s.line && region.end_col == s.column && at == s)),
{
}

/// Where no capital letter comes next, there is no module name.
pub proof fn law_module_name_missing(s: StateView)
    ensures
        s.bytes.len() == 0 ==> (module_name()(s) matches Err(
            (MadeProgress, SyntaxError::Eof(region), at),
        ) && region.start_line == 0 && region.end_line == 0 && region.start_col == 0
            && region.end_col == 0 && at == s),
        s.bytes.len() > 0 && peek(s.bytes) is Err ==> fails(
            module_name()(s),
            MadeProgress,
            SyntaxError::BadUtf8,
            s,
        ),
        peek(s.bytes) matches Ok((ch, _)) ==> (!capital(ch) ==> (module_name()(s) matches Err(
            (NoProgress, SyntaxError::Unexpected(region), at),
        ) && region.start_line == s.line && region.start_col == s.column && region.end_line
            == s.line && region.end_col == s.column && at == s)),
{
}

/// The identifiers of each kind start with a letter of that kind.
pub proof fn law_ident_kinds(s: StateView)
    ensures
        lowercase_ident()(s) matches Ok((_, name, _)) ==> 'a' <= name[0] <= 'z' || (name[0]
            > '\u{7f}' && unicode_lowercase(name[0])),
        uppercase_ident()(s) matches Ok((_, name, _)) ==> 'A' <= name[0] <= 'Z' || (name[0]
            > '\u{7f}' && unicode_uppercase(name[0])),
        unqualified_ident()(s) matches Ok((_, name, _)) ==> 'A' <= name[0] <= 'Z' || 'a' <= name[0]
            <= 'z' || (name[0] > '\u{7f}' && unicode_alphabetic(name[0])),
{
    law_ident_parsed(Initial::Lowercase, s);
    law_ident_parsed(Initial::Uppercase, s);
    law_ident_parsed(Initial::Alphabetic, s);
}

proof fn lemma_ident_rest_broken(
    found: Seq<char>,
    tail: Seq<char>,
    rest: Seq<u8>,
    s: StateView,
)
    requires
        continues_ident_text(tail),
        rest.len() > 0,
        peek(rest) is Err,
        s.bytes == encode_utf8(tail) + rest,
        s.has_room(encode_utf8(tail).len() as int),
    ensures
        fails(
            ident_rest(found, s),
            MadeProgress,
            SyntaxError::BadUtf8,
            s.skip(encode_utf8(tail).len() as int),
        ),
    decreases tail.len(),
{
    if tail.len() == 0 {
        assert(s.bytes =~= rest);
        assert(s.bytes.skip(0) =~= s.bytes);
    } else {
        let ch = tail[0];
        let s1 = s.skip(encode_utf8(seq![ch]).len() as int);
        lemma_first_char_of_text(tail, rest);
        lemma_ident_rest_broken(found.push(ch), tail.skip(1), rest, s1);
        assert(s1.bytes.skip(encode_utf8(tail.skip(1)).len() as int) =~= s.bytes.skip(
            encode_utf8(tail).len() as int,
        ));
    }
}

/// An identifier before bytes that are no text is refused, at those bytes.
pub proof fn law_ident_before_broken_text(
    initial: Initial,
    name: Seq<char>,
    rest: Seq<u8>,
    s: StateView,
)
    requires
        is_ident(initial, name),
        rest.len() > 0,
        peek(rest) is Err,
        s.bytes == encode_utf8(name) + rest,
        s.has_room(encode_utf8(name).len() as int),
    ensures
        ident(initial)(s) matches Err((MadeProgress, e, at)) && e == SyntaxError::BadUtf8
            && at.bytes == rest && at.line == s.line && at.column == s.column + encode_utf8(
            name,
        ).len(),
{
    let first = name[0];
    let s1 = s.skip(encode_utf8(seq![first]).len() as int);
    lemma_first_char_of_text(name, rest);
    lemma_ident_rest_broken(seq![first], name.skip(1), rest, s1);
    assert(s1.bytes.skip(encode_utf8(name.skip(1)).len() as int) =~= s.bytes.skip(
        encode_utf8(name).len() as int,
    ));
    assert(s.bytes.skip(encode_utf8(name).len() as int) =~= rest);
}

proof fn lemma_name_rest_stops(found: Seq<char>, tail: Seq<char>, rest: Seq<u8>, s: StateView)
    requires
        continues_module_name(tail),
        s.bytes == encode_utf8(tail) + rest,
        s.has_room(encode_utf8(tail).len() as int),
    ensures
        module_name_rest(found, s) == module_name_rest(
            found + tail,
            s.skip(encode_utf8(tail).len() as int),
        ),
    decreases tail.len(),
{
    if tail.len() == 0 {
        assert(found + tail =~= found);
        assert(s.bytes.skip(0) =~= s.bytes);
    } else {
        let ch = tail[0];
        let width = encode_utf8(seq![ch]).len() as int;
        lemma_first_char_of_text(tail, rest);
        if continues_ident(ch) {
            let s1 = s.skip(width);
            lemma_name_rest_stops(found.push(ch), tail.skip(1), rest, s1);
            assert(found.push(ch) + tail.skip(1) =~= found + tail);
            assert(s1.bytes.skip(encode_utf8(tail.skip(1)).len() as int) =~= s.bytes.skip(
                encode_utf8(tail).len() as int,
            ));
        } else {
            let next = tail[1];
            let next_width = encode_utf8(seq![next]).len() as int;
            lemma_dot_width(s.bytes);
            lemma_first_char_of_text(tail.skip(1), rest);
            assert(tail.skip(1).skip(1) =~= tail.skip(2));
            let s1 = s.skip(width + next_width);
            assert(s1.bytes =~= s.bytes.skip(1).skip(next_width));
            let found1 = found.push('.').push(next);
            lemma_name_rest_stops(found1, tail.skip(2), rest, s1);
            assert(found1 + tail.skip(2) =~= found + tail);
            assert(s1.bytes.skip(encode_utf8(tail.skip(2)).len() as int) =~= s.bytes.skip(
                encode_utf8(tail).len() as int,
            ));
        }
    }
}

/// A module name before a dot that ends the input is refused, at that dot; before
/// bytes that are no text, at those bytes.
pub proof fn law_module_name_broken_off(name: Seq<char>, rest: Seq<u8>, s: StateView)
    requires
        is_module_name(name),
        s.bytes == encode_utf8(name) + rest,
        s.has_room(encode_utf8(name).len() as int),
    ensures
        rest == seq![0x2eu8] ==> (module_name()(s) matches Err((MadeProgress, e, at)) && e is Eof
            && at.bytes == rest && at.line == s.line && at.column == s.column + encode_utf8(
            name,
        ).len()),
        rest.len() > 0 && peek(rest) is Err ==> (module_name()(s) matches Err(
            (MadeProgress, e, at),
        ) && e == SyntaxError::BadUtf8 && at.bytes == rest && at.line == s.line && at.column
            == s.column + encode_utf8(name).len()),
{
    let first = name[0];
    let width = encode_utf8(seq![first]).len() as int;
    lemma_first_char_of_text(name, rest);
    let s1 = s.skip(width);
    lemma_name_rest_stops(seq![first], name.skip(1), rest, s1);
    let total = encode_utf8(name).len() as int;
    assert(s1.bytes.skip(encode_utf8(name.skip(1)).len() as int) =~= s.bytes.skip(total));
    assert(s.bytes.skip(total) =~= rest);
    if rest == seq![0x2eu8] {
        lemma_first_char_ascii('.', Seq::empty());
        assert(seq![0x2eu8] + Seq::<u8>::empty() =~= rest);
        assert(rest.skip(1) =~= Seq::<u8>::empty());
    }
}

proof fn lemma_ident_rest_too_long(
    found: Seq<char>,
    tail: Seq<char>,
    rest: Seq<u8>,
    s: StateView,
)
    requires
        continues_ident_text(tail),
        s.bytes == encode_utf8(tail) + rest,
        !s.has_room(encode_utf8(tail).len() as int),
    ensures
        ident_rest(found, s) matches Err((MadeProgress, e, _)) && e == SyntaxError::LineTooLong(
            s.line,
        ),
    decreases tail.len(),
{
    if tail.len() > 0 {
        let ch = tail[0];
        let width = encode_utf8(seq![ch]).len() as int;
        lemma_first_char_of_text(tail, rest);
        if s.has_room(width) {
            lemma_ident_rest_too_long(found.push(ch), tail.skip(1), rest, s.skip(width));
        }
    }
}

/// An identifier that goes over the last column that can be counted is refused.
pub proof fn law_ident_too_long(initial: Initial, name: Seq<char>, rest: Seq<u8>, s: StateView)
    requires
        is_ident(initial, name),
        s.bytes == encode_utf8(name) + rest,
        s.column + encode_utf8(name).len() > 0xffff,
    ensures
        ident(initial)(s) matches Err((progress, e, _)) && e == SyntaxError::LineTooLong(s.line)
            && (progress == MadeProgress <==> s.column + encode_utf8(seq![name[0]]).len()
            <= 0xffff),
{
    let first = name[0];
    let width = encode_utf8(seq![first]).len() as int;
    lemma_first_char_of_text(name, rest);
    if s.has_room(width) {
        lemma_ident_rest_too_long(seq![first], name.skip(1), rest, s.skip(width));
    }
}

proof fn lemma_name_rest_too_long(found: Seq<char>, tail: Seq<char>, rest: Seq<u8>, s: StateView)
    requires
        continues_module_name(tail),
        s.bytes == encode_utf8(tail) + rest,
        !s.has_room(encode_utf8(tail).len() as int),
    ensures
        module_name_rest(found, s) matches Err((NoProgress, e, _)) && e == SyntaxError::LineTooLong(
            s.line,
        ),
    decreases tail.len(),
{
    if tail.len() > 0 {
        let ch = tail[0];
        let width = encode_utf8(seq![ch]).len() as int;
        lemma_first_char_of_text(tail, rest);
        if continues_ident(ch) {
            if s.has_room(width) {
                lemma_name_rest_too_long(found.push(ch), tail.skip(1), rest, s.skip(width));
            }
        } else {
            let next = tail[1];
            let next_width = encode_utf8(seq![next]).len() as int;
            lemma_dot_width(s.bytes);
            lemma_first_char_of_text(tail.skip(1), rest);
            assert(tail.skip(1).skip(1) =~= tail.skip(2));
            if s.has_room(width + next_width) {
                let s1 = s.skip(width + next_width);
                assert(s1.bytes =~= s.bytes.skip(1).skip(next_width));
                lemma_name_rest_too_long(found.push('.').push(next), tail.skip(2), rest, s1);
            }
        }
    }
}

/// A module name that goes over the last column that can be counted is refused.
pub proof fn law_module_name_too_long(name: Seq<char>, rest: Seq<u8>, s: StateView)
    requires
        is_module_name(name),
        s.bytes == encode_utf8(name) + rest,
        s.column + encode_utf8(name).len() > 0xffff,
    ensures
        module_name()(s) matches Err((NoProgress, e, _)) && e == SyntaxError::LineTooLong(s.line),
{
    let first = name[0];
    let width = encode_utf8(seq![first]).len() as int;
    lemma_first_char_of_text(name, rest);
    if s.has_room(width) {
        lemma_name_rest_too_long(seq![first], name.skip(1), rest, s.skip(width));
    }
}

} // verus!
