//! The tokens of a program, read through a `peekmore` iterator, which lets the
//! parser look ahead.

use crate::lexer::chars::LOOKAHEAD;
use crate::lexer::token::Token;
use crate::shared::Positioned;
use peekmore::PeekMore;
use peekmore::PeekMoreIterator;
use std::vec::IntoIter;
use vstd::prelude::*;

verus! {

/// The tokens that a stream has not handed out yet, in the order in which it
/// will.
pub uninterp spec fn pending_tokens(stream: PeekMoreIterator<IntoIter<Positioned<Token>>>) -> Seq<
    Positioned<Token>,
>;

/// `Vec::into_iter` followed by `PeekMore::peekmore`: a stream over `tokens`,
/// none of them handed out.
#[verifier::external_body]
pub(crate) fn open_tokens(tokens: Vec<Positioned<Token>>) -> (stream: PeekMoreIterator<
    IntoIter<Positioned<Token>>,
>)
    ensures
        pending_tokens(stream) == tokens@,
{
    tokens.into_iter().peekmore()
}

/// `Iterator::next` of `PeekMoreIterator`: hands out the first pending token,
/// or nothing where none is pending.
#[verifier::external_body]
pub(crate) fn next_token(stream: &mut PeekMoreIterator<IntoIter<Positioned<Token>>>) -> (token:
    Option<Positioned<Token>>)
    ensures
        pending_tokens(*old(stream)).len() == 0 ==> token is None && pending_tokens(*final(stream))
            == pending_tokens(*old(stream)),
        pending_tokens(*old(stream)).len() > 0 ==> token == Some(pending_tokens(*old(stream))[0])
            && pending_tokens(*final(stream)) == pending_tokens(*old(stream)).drop_first(),
{
    stream.next()
}

/// `PeekMoreIterator::peek_nth`: a copy of the pending token at place `ahead`,
/// the next one being at place 0, or nothing where fewer are pending. No token
/// is handed out.
#[verifier::external_body]
pub(crate) fn peek_token(stream: &mut PeekMoreIterator<IntoIter<Positioned<Token>>>, ahead: usize) -> (token:
    Option<Positioned<Token>>)
    requires
        ahead < LOOKAHEAD,
    ensures
        pending_tokens(*final(stream)) == pending_tokens(*old(stream)),
        ahead < pending_tokens(*old(stream)).len() ==> (token matches Some(found) && found.span
            == pending_tokens(*old(stream))[ahead as int].span && found.value@
            == pending_tokens(*old(stream))[ahead as int].value@),
        ahead >= pending_tokens(*old(stream)).len() ==> token is None,
{
    stream.peek_nth(ahead).cloned()
}

/// `Iterator::collect` of `PeekMoreIterator`: the pending tokens, all handed
/// out at once.
#[verifier::external_body]
pub(crate) fn collect_tokens(stream: PeekMoreIterator<IntoIter<Positioned<Token>>>) -> (tokens: Vec<
    Positioned<Token>,
>)
    ensures
        tokens@ == pending_tokens(stream),
{
    stream.collect()
}

} // verus!
