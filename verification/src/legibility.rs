//! Tokens written as text, and the proof that the tokenizer reads them back.
use crate::tokenizer::{
    end_node_spec, is_operator_char, lemma_push_spec_append, lexeme_token, operator_token,
    push_char_spec, push_spec, token_text, tokenize_spec, tokens_from, TokenView, TokenizerView,
};
use vstd::prelude::*;

verus! {

/// The text of the tokens `tokens` written one after the other.
pub open spec fn text_of(tokens: Seq<TokenView>) -> Seq<char>
    decreases tokens.len(),
{
    if tokens.len() == 0 {
        Seq::empty()
    } else {
        token_text(tokens[0]) + text_of(tokens.drop_first())
    }
}

/// Whether `lexeme` can be the text of an operand: it is not empty and holds
/// no operator character.
pub open spec fn plain(lexeme: Seq<char>) -> bool {
    &&& lexeme.len() > 0
    &&& forall|i: int| 0 <= i < lexeme.len() ==> !is_operator_char(#[trigger] lexeme[i])
}

/// Whether the tokens `tokens` can be told apart when they are written one
/// after the other: each operand has a plain text, and no operand follows
/// another.
pub open spec fn legible(tokens: Seq<TokenView>) -> bool {
    &&& forall|i: int|
        0 <= i < tokens.len() ==> (#[trigger] tokens[i] matches TokenView::T(lexeme) ==> plain(
            lexeme,
        ))
    &&& forall|i: int|
        0 <= i < tokens.len() - 1 ==> (#[trigger] tokens[i] is T ==> !(tokens[i + 1] is T))
}

/// Characters that are no operators join the token being read.
proof fn lemma_push_plain(state: TokenizerView, chars: Seq<char>)
    requires
        forall|i: int| 0 <= i < chars.len() ==> !is_operator_char(#[trigger] chars[i]),
    ensures
        push_spec(state, chars) == (TokenizerView {
            tokens: state.tokens,
            current: state.current + chars,
        }),
    decreases chars.len(),
{
    if chars.len() > 0 {
        let next = push_char_spec(state, chars[0]);
        lemma_push_plain(next, chars.drop_first());
        assert(state.current.push(chars[0]) + chars.drop_first() =~= state.current + chars);
    }
}

/// The tokens read from a state on, when the text to come is that of legible
/// tokens: the token being read, then those tokens. Where the first of them
/// is an operand, no token is being read.
proof fn lemma_tokens_from_text(state: TokenizerView, tokens: Seq<TokenView>)
    requires
        legible(tokens),
        state.current.len() == 0 || plain(state.current),
        tokens.len() > 0 && tokens[0] is T ==> state.current.len() == 0,
    ensures
        tokens_from(state, text_of(tokens)) == end_node_spec(state).tokens + tokens,
    decreases tokens.len(),
{
    if tokens.len() > 0 {
        let first = tokens[0];
        let rest = tokens.drop_first();
        assert(legible(rest));
        lemma_push_spec_append(state, token_text(first), text_of(rest));
        let next = push_spec(state, token_text(first));
        match first {
            TokenView::T(lexeme) => {
                lemma_push_plain(state, lexeme);
                lemma_tokens_from_text(next, rest);
            },
            _ => {
                reveal_with_fuel(push_spec, 2);
                lemma_tokens_from_text(next, rest);
            },
        }
    }
}

/// The tokenizer reads legible tokens back from their text.
pub proof fn theorem_tokens_are_read_back(tokens: Seq<TokenView>)
    requires
        legible(tokens),
    ensures
        tokenize_spec(text_of(tokens)) == tokens,
{
    let state = TokenizerView { tokens: Seq::empty(), current: Seq::empty() };
    lemma_tokens_from_text(state, tokens);
}

/// The character that `c` is read as: the letter x, small or capital, is the
/// multiplication sign.
pub open spec fn canonical(c: char) -> char {
    if c == 'x' || c == 'X' {
        '*'
    } else {
        c
    }
}

/// The text `chars` with each character as it is read.
pub open spec fn canonical_text(chars: Seq<char>) -> Seq<char> {
    chars.map_values(|c: char| canonical(c))
}

/// The text that a state of the tokenizer has read: that of its finished
/// tokens, then the characters of the token being read.
pub open spec fn text_read(state: TokenizerView) -> Seq<char> {
    text_of(state.tokens) + state.current
}

/// What holds of the tokenizer between two characters of a text: its
/// finished tokens are legible and the last of them is no operand, and the
/// token being read is plain.
pub open spec fn tidy(state: TokenizerView) -> bool {
    &&& legible(state.tokens)
    &&& state.current.len() == 0 || plain(state.current)
    &&& state.tokens.len() > 0 ==> !(state.tokens.last() is T)
}

/// The text of tokens with one more is their text, then the text of the one.
proof fn lemma_text_of_push(tokens: Seq<TokenView>, token: TokenView)
    ensures
        text_of(tokens.push(token)) == text_of(tokens) + token_text(token),
    decreases tokens.len(),
{
    reveal_with_fuel(text_of, 2);
    if tokens.len() > 0 {
        assert(tokens.push(token).drop_first() =~= tokens.drop_first().push(token));
        lemma_text_of_push(tokens.drop_first(), token);
    }
}

/// Legible tokens stay legible with one more token that is plain, where it
/// is an operand, and that follows no operand, where it is one.
proof fn lemma_legible_push(tokens: Seq<TokenView>, token: TokenView)
    requires
        legible(tokens),
        token matches TokenView::T(lexeme) ==> plain(lexeme),
        tokens.len() > 0 && tokens.last() is T ==> !(token is T),
    ensures
        legible(tokens.push(token)),
{
}

/// Ending the token being read keeps the finished tokens legible and the
/// text that was read.
proof fn lemma_end_node_tidy(state: TokenizerView)
    requires
        tidy(state),
    ensures
        legible(end_node_spec(state).tokens),
        text_read(end_node_spec(state)) == text_read(state),
        end_node_spec(state).current.len() == 0,
{
    if state.current.len() > 0 {
        let token = lexeme_token(state.current);
        lemma_legible_push(state.tokens, token);
        lemma_text_of_push(state.tokens, token);
    }
}

/// One more character keeps the tokenizer tidy and joins the text that was
/// read, as it is read.
proof fn lemma_push_char_tidy(state: TokenizerView, c: char)
    requires
        tidy(state),
    ensures
        tidy(push_char_spec(state, c)),
        text_read(push_char_spec(state, c)) == text_read(state).push(canonical(c)),
{
    if is_operator_char(c) {
        lemma_end_node_tidy(state);
        let ended = end_node_spec(state);
        let token = operator_token(c);
        lemma_legible_push(ended.tokens, token);
        lemma_text_of_push(ended.tokens, token);
    }
}

/// A text keeps the tokenizer tidy and joins the text that was read, as it
/// is read.
proof fn lemma_push_tidy(state: TokenizerView, chars: Seq<char>)
    requires
        tidy(state),
    ensures
        tidy(push_spec(state, chars)),
        text_read(push_spec(state, chars)) == text_read(state) + canonical_text(chars),
    decreases chars.len(),
{
    if chars.len() > 0 {
        lemma_push_char_tidy(state, chars[0]);
        lemma_push_tidy(push_char_spec(state, chars[0]), chars.drop_first());
    }
}

/// Every text has tokens, and they are legible: each operand is a run of
/// characters that are no operators, never empty, and no operand follows
/// another. Written one after the other they are the text again, but for the
/// letter x, which is written as the multiplication sign.
pub proof fn theorem_tokens_spell_the_text(chars: Seq<char>)
    ensures
        legible(tokenize_spec(chars)),
        text_of(tokenize_spec(chars)) == canonical_text(chars),
{
    let state = TokenizerView { tokens: Seq::empty(), current: Seq::empty() };
    lemma_push_tidy(state, chars);
    lemma_end_node_tidy(push_spec(state, chars));
}

/// The tokens of a text are those of their own text: reading twice changes
/// nothing.
pub proof fn theorem_reading_twice_changes_nothing(chars: Seq<char>)
    ensures
        tokenize_spec(text_of(tokenize_spec(chars))) == tokenize_spec(chars),
{
    theorem_tokens_spell_the_text(chars);
    theorem_tokens_are_read_back(tokenize_spec(chars));
}

} // verus!
