//! What holds of the tokens of every text.

use crate::lexer::rules::{lex, lexed, other, reserved, step};
use crate::lexer::token::TokenView;
use crate::shared::{Positioned, Span};
use vstd::prelude::*;

verus! {

/// No word is the token for the end of the text.
pub proof fn lemma_word_is_no_end(word: Seq<char>)
    ensures
        !(reserved(word) is EOF),
{
}

/// The tokens of a text are those read before, the tokens of what is left, and
/// the token for the end, which is the last one and the only one of its kind
/// among those that are added.
pub proof fn lemma_lex_ends_in_end(rest: Seq<char>, span: Span, tokens: Seq<Positioned<TokenView>>)
    requires
        lex(rest, span, tokens) is Some,
    ensures
        ({
            let all = lex(rest, span, tokens)->Some_0;
            &&& all.len() > tokens.len()
            &&& all.last().value == TokenView::EOF
            &&& forall|i: int| 0 <= i < tokens.len() ==> #[trigger] all[i] == tokens[i]
            &&& forall|i: int|
                tokens.len() <= i < all.len() - 1 ==> !((#[trigger] all[i]).value is EOF)
        }),
    decreases rest.len(),
{
    if rest.len() > 0 {
        let read = step(rest, span)->Some_0;
        let more = match read.token {
            Some(token) => tokens.push(token),
            None => tokens,
        };
        lemma_lex_ends_in_end(read.rest, read.span, more);
        let all = lex(rest, span, tokens)->Some_0;
        assert forall|i: int| 0 <= i < tokens.len() implies #[trigger] all[i] == tokens[i] by {
            assert(all[i] == more[i]);
        }
        assert forall|i: int| tokens.len() <= i < all.len() - 1 implies !((
        #[trigger] all[i]).value is EOF) by {
            if i < more.len() {
                assert(all[i] == more[i]);
            }
        }
    }
}

/// The tokens of a text end in the token for the end, and hold no other one of
/// its kind.
pub proof fn lemma_tokens_end_in_end(text: Seq<char>)
    requires
        lexed(text) is Some,
    ensures
        lexed(text)->Some_0.len() > 0,
        lexed(text)->Some_0.last().value == TokenView::EOF,
        forall|i: int|
            0 <= i < lexed(text)->Some_0.len() - 1 ==> !((#[trigger] lexed(text)->Some_0[i]).value is EOF),
{
    lemma_lex_ends_in_end(text, Span { start: 0, end: 0, line: 0, column: 0 }, Seq::empty());
}

/// The empty text has one token, the one for its end.
pub proof fn lemma_empty_text(text: Seq<char>)
    requires
        text.len() == 0,
    ensures
        lexed(text) == Some(
            seq![
                Positioned {
                    value: TokenView::EOF,
                    span: Span { start: 0, end: 0, line: 0, column: 0 },
                },
            ],
        ),
{
    assert(Seq::<Positioned<TokenView>>::empty().push(
        Positioned { value: TokenView::EOF, span: Span { start: 0, end: 0, line: 0, column: 0 } },
    ) =~= seq![
        Positioned { value: TokenView::EOF, span: Span { start: 0, end: 0, line: 0, column: 0 } },
    ]);
}

} // verus!
