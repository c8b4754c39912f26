//! The characters of a text, read through a `peekmore` iterator, which lets
//! the lexer look ahead.

use peekmore::PeekMore;
use peekmore::PeekMoreIterator;
use std::str::Chars;
use vstd::prelude::*;

verus! {

/// The iterator of the `peekmore` crate that hands items out one by one and
/// lets its user look at those that are still to come.
#[verifier::external_type_specification]
#[verifier::external_body]
#[verifier::reject_recursive_types(I)]
pub struct ExPeekMoreIterator<I: Iterator>(PeekMoreIterator<I>);

/// How far ahead the lexer and the parser look. A stream is never asked for
/// what lies further ahead: it would first read all that lies before.
pub const LOOKAHEAD: usize = 4;

/// The characters that a stream has not handed out yet, in the order in which
/// it will.
pub uninterp spec fn pending_chars(stream: PeekMoreIterator<Chars<'_>>) -> Seq<char>;

/// `str::chars` followed by `PeekMore::peekmore`: a stream over the characters
/// of `text`, none of them handed out.
#[verifier::external_body]
pub(crate) fn open_chars<'a>(text: &'a str) -> (stream: PeekMoreIterator<Chars<'a>>)
    ensures
        pending_chars(stream) == text@,
{
    text.chars().peekmore()
}

/// `Iterator::next` of `PeekMoreIterator`: hands out the first pending
/// character, or nothing where none is pending.
#[verifier::external_body]
pub(crate) fn next_char(stream: &mut PeekMoreIterator<Chars<'_>>) -> (character: Option<char>)
    ensures
        pending_chars(*old(stream)).len() == 0 ==> character is None && pending_chars(
            *final(stream),
        ) == pending_chars(*old(stream)),
        pending_chars(*old(stream)).len() > 0 ==> character == Some(pending_chars(*old(stream))[0])
            && pending_chars(*final(stream)) == pending_chars(*old(stream)).drop_first(),
{
    stream.next()
}

/// `PeekMoreIterator::peek_nth`: the pending character at place `ahead`, the
/// next one being at place 0, or nothing where fewer are pending. No character
/// is handed out.
#[verifier::external_body]
pub(crate) fn peek_char(stream: &mut PeekMoreIterator<Chars<'_>>, ahead: usize) -> (character: Option<
    char,
>)
    requires
        ahead < LOOKAHEAD,
    ensures
        pending_chars(*final(stream)) == pending_chars(*old(stream)),
        character == if ahead < pending_chars(*old(stream)).len() {
            Some(pending_chars(*old(stream))[ahead as int])
        } else {
            None
        },
{
    stream.peek_nth(ahead).copied()
}

} // verus!
