//! What the parsers keep in the arena, and the operations on it that are taken
//! from `bumpalo` on trust.

use bumpalo::Bump;
use vstd::prelude::*;

verus! {

/// The arena itself.
#[verifier::external_type_specification]
#[verifier::external_body]
pub struct ExBump<const MIN_ALIGN: usize>(bumpalo::Bump<MIN_ALIGN>);

/// A growing string in the arena.
#[verifier::external_type_specification]
#[verifier::external_body]
pub struct ExBumpString<'bump>(bumpalo::collections::String<'bump>);

/// The characters that a growing string holds.
pub uninterp spec fn text_of(text: bumpalo::collections::String<'_>) -> Seq<char>;

/// `bumpalo::collections::String::with_capacity_in`: the new string is empty,
/// whatever room was asked for.
#[verifier::external_body]
pub(crate) fn text_with_capacity_in<'a>(capacity: usize, arena: &'a Bump) -> (text:
    bumpalo::collections::String<'a>)
    requires
        capacity <= isize::MAX,
    ensures
        text_of(text) == Seq::<char>::empty(),
{
    bumpalo::collections::String::with_capacity_in(capacity, arena)
}

/// `bumpalo::collections::String::push`: the character goes to the end, and
/// what was there before stays.
#[verifier::external_body]
pub(crate) fn text_push(text: &mut bumpalo::collections::String<'_>, ch: char)
    ensures
        text_of(*final(text)) == text_of(*old(text)).push(ch),
{
    text.push(ch)
}

/// `bumpalo::collections::String::into_bump_str`: the slice holds the
/// characters of the string.
#[verifier::external_body]
pub(crate) fn text_into_bump_str<'a>(text: bumpalo::collections::String<'a>) -> (slice: &'a str)
    ensures
        slice@ == text_of(text),
{
    text.into_bump_str()
}

/// `bumpalo::Bump::alloc`: the reference points at the value that was handed
/// over.
#[verifier::external_body]
pub(crate) fn alloc_in<'a, T>(arena: &'a Bump, value: T) -> (reference: &'a T)
    ensures
        *reference == value,
{
    arena.alloc(value)
}

/// `bumpalo::collections::Vec::into_bump_slice`, on a vector that
/// `bumpalo::collections::Vec::from_iter_in` filled: the slice holds the items
/// in the order in which they were handed over.
#[verifier::external_body]
pub(crate) fn into_bump_slice<'a, T>(arena: &'a Bump, items: Vec<T>) -> (slice: &'a [T])
    ensures
        slice@ == items@,
{
    bumpalo::collections::Vec::from_iter_in(items, arena).into_bump_slice()
}

} // verus!
