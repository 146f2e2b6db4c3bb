//! The tokenizer: from characters to tokens.
use crate::shunting_yard::{Associativity, ShuntType, ShuntingYardToken};
use crate::source::{lemma_views_drop_first, lemma_views_push, views, Source};
use crate::text::string_of;
use std::collections::VecDeque;
use vstd::prelude::*;

verus! {

/// An operand with its text, not yet read as a number, or an operator or a
/// parenthesis.
#[derive(Debug, Clone, Eq, PartialEq)]
pub enum Token {
    T(String),
    Plus,
    Minus,
    Multiply,
    Divide,
    Power,
    Root,
    Percent,
    OpenBrace,
    CloseBrace,
}

/// What a `Token` is to the contracts: the same, with the operand's text as
/// a sequence of characters.
pub ghost enum TokenView {
    T(Seq<char>),
    Plus,
    Minus,
    Multiply,
    Divide,
    Power,
    Root,
    Percent,
    OpenBrace,
    CloseBrace,
}

impl View for Token {
    type V = TokenView;

    open spec fn view(&self) -> TokenView {
        match self {
            Token::T(s) => TokenView::T(s@),
            Token::Plus => TokenView::Plus,
            Token::Minus => TokenView::Minus,
            Token::Multiply => TokenView::Multiply,
            Token::Divide => TokenView::Divide,
            Token::Power => TokenView::Power,
            Token::Root => TokenView::Root,
            Token::Percent => TokenView::Percent,
            Token::OpenBrace => TokenView::OpenBrace,
            Token::CloseBrace => TokenView::CloseBrace,
        }
    }
}

/// The text that a token is written as.
pub open spec fn token_text(token: TokenView) -> Seq<char> {
    match token {
        TokenView::T(s) => s,
        TokenView::Plus => seq!['+'],
        TokenView::Minus => seq!['-'],
        TokenView::Multiply => seq!['*'],
        TokenView::Divide => seq!['/'],
        TokenView::Power => seq!['^'],
        TokenView::Root => seq!['\u{221a}'],
        TokenView::Percent => seq!['%'],
        TokenView::OpenBrace => seq!['('],
        TokenView::CloseBrace => seq![')'],
    }
}

/// Whether `c` is a token by itself, wherever it stands.
pub open spec fn is_operator_char(c: char) -> bool {
    c == '+' || c == '-' || c == '*' || c == 'x' || c == 'X' || c == '/' || c == '^' || c
        == '\u{221a}' || c == '%' || c == '(' || c == ')'
}

/// The token that the operator character `c` is.
pub open spec fn operator_token(c: char) -> TokenView {
    if c == '+' {
        TokenView::Plus
    } else if c == '-' {
        TokenView::Minus
    } else if c == '*' || c == 'x' || c == 'X' {
        TokenView::Multiply
    } else if c == '/' {
        TokenView::Divide
    } else if c == '^' {
        TokenView::Power
    } else if c == '\u{221a}' {
        TokenView::Root
    } else if c == '%' {
        TokenView::Percent
    } else if c == '(' {
        TokenView::OpenBrace
    } else {
        TokenView::CloseBrace
    }
}

/// The token that a finished run of characters is: the operator, where the
/// run is one operator character, else an operand with the run as its text.
pub open spec fn lexeme_token(lexeme: Seq<char>) -> TokenView {
    if lexeme.len() == 1 && is_operator_char(lexeme[0]) {
        operator_token(lexeme[0])
    } else {
        TokenView::T(lexeme)
    }
}

/// What a `TokenizerState` is to the contracts.
pub ghost struct TokenizerView {
    /// The finished tokens that nobody has taken yet, oldest first.
    pub tokens: Seq<TokenView>,
    /// The characters of the token that is being read.
    pub current: Seq<char>,
}

/// The state after the characters read so far are made a token, if there are
/// any.
pub open spec fn end_node_spec(state: TokenizerView) -> TokenizerView {
    if state.current.len() == 0 {
        state
    } else {
        TokenizerView {
            tokens: state.tokens.push(lexeme_token(state.current)),
            current: Seq::empty(),
        }
    }
}

/// The state after one more character: an operator character ends the token
/// before it and is a token itself, any other joins the token being read.
pub open spec fn push_char_spec(state: TokenizerView, c: char) -> TokenizerView {
    if is_operator_char(c) {
        end_node_spec(TokenizerView { tokens: end_node_spec(state).tokens, current: seq![c] })
    } else {
        TokenizerView { tokens: state.tokens, current: state.current.push(c) }
    }
}

/// The state after the characters `chars`, in order.
pub open spec fn push_spec(state: TokenizerView, chars: Seq<char>) -> TokenizerView
    decreases chars.len(),
{
    if chars.len() == 0 {
        state
    } else {
        push_spec(push_char_spec(state, chars[0]), chars.drop_first())
    }
}

/// The tokens that are handed out from `state` on, when `chars` are the
/// characters still to come.
pub open spec fn tokens_from(state: TokenizerView, chars: Seq<char>) -> Seq<TokenView> {
    end_node_spec(push_spec(state, chars)).tokens
}

/// The tokens of the text `chars`.
pub open spec fn tokenize_spec(chars: Seq<char>) -> Seq<TokenView> {
    tokens_from(TokenizerView { tokens: Seq::empty(), current: Seq::empty() }, chars)
}

/// `state` without its oldest finished token.
pub open spec fn without_head(state: TokenizerView) -> TokenizerView {
    TokenizerView { tokens: state.tokens.drop_first(), current: state.current }
}

/// Ending the token being read does not touch the oldest finished token.
proof fn lemma_end_node_head(state: TokenizerView)
    requires
        state.tokens.len() > 0,
    ensures
        end_node_spec(state).tokens.len() > 0,
        end_node_spec(state).tokens[0] == state.tokens[0],
        end_node_spec(without_head(state)) == without_head(end_node_spec(state)),
{
    if state.current.len() > 0 {
        let token = lexeme_token(state.current);
        assert(state.tokens.drop_first().push(token) == state.tokens.push(token).drop_first());
    }
}

/// No character touches the oldest finished token.
proof fn lemma_push_char_head(state: TokenizerView, c: char)
    requires
        state.tokens.len() > 0,
    ensures
        push_char_spec(state, c).tokens.len() > 0,
        push_char_spec(state, c).tokens[0] == state.tokens[0],
        push_char_spec(without_head(state), c) == without_head(push_char_spec(state, c)),
{
    if is_operator_char(c) {
        lemma_end_node_head(state);
        let ended = TokenizerView { tokens: end_node_spec(state).tokens, current: seq![c] };
        lemma_end_node_head(ended);
    }
}

/// The oldest finished token is the first to be handed out, whatever comes
/// after it.
proof fn lemma_tokens_from_head(state: TokenizerView, chars: Seq<char>)
    requires
        state.tokens.len() > 0,
    ensures
        tokens_from(state, chars).len() > 0,
        tokens_from(state, chars)[0] == state.tokens[0],
        tokens_from(without_head(state), chars) == tokens_from(state, chars).drop_first(),
    decreases chars.len(),
{
    if chars.len() == 0 {
        lemma_end_node_head(state);
    } else {
        lemma_push_char_head(state, chars[0]);
        lemma_tokens_from_head(push_char_spec(state, chars[0]), chars.drop_first());
    }
}

/// Reading one run of characters after another is reading the two in a row.
pub proof fn lemma_push_spec_append(state: TokenizerView, first: Seq<char>, second: Seq<char>)
    ensures
        push_spec(state, first + second) == push_spec(push_spec(state, first), second),
    decreases first.len(),
{
    if first.len() > 0 {
        assert((first + second).drop_first() =~= first.drop_first() + second);
        lemma_push_spec_append(push_char_spec(state, first[0]), first.drop_first(), second);
    }
}

/// Whether `c` is a token by itself.
pub fn operator_char(c: char) -> (r: bool)
    ensures
        r == is_operator_char(c),
{
    c == '+' || c == '-' || c == '*' || c == 'x' || c == 'X' || c == '/' || c == '^' || c
        == '\u{221a}' || c == '%' || c == '(' || c == ')'
}

impl Token {
    /// The text that the token is written as.
    pub fn to_string(&self) -> (r: String)
        ensures
            r@ == token_text(self@),
    {
        match self {
            Token::T(s) => s.clone(),
            Token::Plus => string_of(&vec!['+']),
            Token::Minus => string_of(&vec!['-']),
            Token::Multiply => string_of(&vec!['*']),
            Token::Divide => string_of(&vec!['/']),
            Token::Power => string_of(&vec!['^']),
            Token::Root => string_of(&vec!['\u{221a}']),
            Token::Percent => string_of(&vec!['%']),
            Token::OpenBrace => string_of(&vec!['(']),
            Token::CloseBrace => string_of(&vec![')']),
        }
    }

    /// The token that the operator character `c` is.
    pub fn operator(c: char) -> (r: Token)
        requires
            is_operator_char(c),
        ensures
            r@ == operator_token(c),
    {
        if c == '+' {
            Token::Plus
        } else if c == '-' {
            Token::Minus
        } else if c == '*' || c == 'x' || c == 'X' {
            Token::Multiply
        } else if c == '/' {
            Token::Divide
        } else if c == '^' {
            Token::Power
        } else if c == '\u{221a}' {
            Token::Root
        } else if c == '%' {
            Token::Percent
        } else if c == '(' {
            Token::OpenBrace
        } else {
            Token::CloseBrace
        }
    }
}

/// The tokenizer between two characters: the finished tokens that nobody has
/// taken, and the characters of the token being read.
pub struct TokenizerState {
    tokens: VecDeque<Token>,
    current_token: Vec<char>,
}

impl View for TokenizerState {
    type V = TokenizerView;

    closed spec fn view(&self) -> TokenizerView {
        TokenizerView { tokens: views(self.tokens@), current: self.current_token@ }
    }
}

impl TokenizerState {
    /// The tokenizer before any character.
    pub fn new() -> (r: TokenizerState)
        ensures
            r@ == (TokenizerView { tokens: Seq::empty(), current: Seq::empty() }),
    {
        let r = TokenizerState { tokens: VecDeque::new(), current_token: Vec::new() };
        assert(views(r.tokens@) == Seq::<TokenView>::empty());
        r
    }

    /// Ends the token being read and hands out all the finished tokens.
    pub fn complete(self) -> (tokens: Vec<Token>)
        ensures
            views(tokens@) == end_node_spec(self@).tokens,
    {
        let mut state = self;
        state.end_node();
        let mut tokens: Vec<Token> = Vec::new();
        let ghost all = state.tokens@;
        loop
            invariant
                tokens@ + state.tokens@ == all,
            ensures
                tokens@ == all,
            decreases state.tokens@.len(),
        {
            match state.tokens.pop_front() {
                Some(token) => {
                    tokens.push(token);
                },
                None => {
                    break;
                },
            }
        }
        tokens
    }

    /// Makes a token of the characters read since the last one, if there are
    /// any.
    pub fn end_node(&mut self)
        ensures
            final(self)@ == end_node_spec(old(self)@),
    {
        if self.current_token.len() > 0 {
            let token = if self.current_token.len() == 1 && operator_char(self.current_token[0]) {
                Token::operator(self.current_token[0])
            } else {
                Token::T(string_of(&self.current_token))
            };
            proof {
                lemma_views_push(self.tokens@, token);
            }
            self.tokens.push_back(token);
            self.current_token = Vec::new();
        }
    }

    /// Reads the characters of `expression`, in order.
    pub fn push(&mut self, expression: &str)
        ensures
            final(self)@ == push_spec(old(self)@, expression@),
    {
        assert(expression@.skip(0) == expression@);
        for c in it: expression.chars()
            invariant
                it.seq() == expression@,
                push_spec(old(self)@, expression@) == push_spec(
                    self@,
                    expression@.skip(it.index()),
                ),
        {
            assert(expression@.skip(it.index()).drop_first() == expression@.skip(it.index() + 1));
            self.push_char(c);
        }
    }

    /// Reads one character.
    pub fn push_char(&mut self, c: char)
        ensures
            final(self)@ == push_char_spec(old(self)@, c),
    {
        if operator_char(c) {
            self.end_node();
            self.current_token.push(c);
            self.end_node();
        } else {
            self.current_token.push(c);
        }
    }
}

/// The tokens of a sequence of characters, made as they are asked for.
pub struct TokenStream<I: Source<Item = char>> {
    iter: I,
    state: TokenizerState,
}

impl<I: Source<Item = char>> TokenStream<I> {
    /// The tokens of the characters of `iter`.
    pub fn new(iter: I) -> (r: TokenStream<I>)
        requires
            iter.wf(),
        ensures
            r.wf(),
            r.remaining() == tokenize_spec(iter.remaining()),
    {
        Self { iter, state: TokenizerState::new() }
    }
}

impl<I: Source<Item = char>> Source for TokenStream<I> {
    type Item = Token;

    closed spec fn wf(&self) -> bool {
        self.iter.wf()
    }

    closed spec fn remaining(&self) -> Seq<TokenView> {
        tokens_from(self.state@, self.iter.remaining())
    }

    fn next(&mut self) -> (r: Option<Token>) {
        loop
            invariant
                self.iter.wf(),
                self.remaining() == old(self).remaining(),
            decreases
                    2 * self.iter.remaining().len() + if self.state.tokens@.len() == 0 {
                        1int
                    } else {
                        0int
                    },
        {
            let ghost before = self.state@;
            let ghost chars = self.iter.remaining();
            let ghost queue = self.state.tokens@;
            let head = self.state.tokens.pop_front();
            if head.is_some() {
                proof {
                    lemma_views_drop_first(queue);
                    lemma_tokens_from_head(before, chars);
                }
                return head;
            }
            match self.iter.next() {
                Some(c) => {
                    self.state.push_char(c);
                },
                None => {
                    self.state.end_node();
                    if self.state.tokens.len() == 0 {
                        return None;
                    }
                },
            }
        }
    }
}

/// What can be cut into tokens.
pub trait Tokenize<R: Source<Item = Token>>: Source<Item = char> {
    fn tokenize(self) -> (r: R)
        requires
            self.wf(),
        ensures
            r.wf(),
            r.remaining() == tokenize_spec(self.remaining()),
    ;
}

impl<I: Source<Item = char>> Tokenize<TokenStream<I>> for I {
    fn tokenize(self) -> (r: TokenStream<I>) {
        TokenStream::new(self)
    }
}

/// The part that a token plays: addition and subtraction bind least, then
/// multiplication and division, then power and root; the percent sign binds
/// as tight as these. All group to the left.
pub open spec fn token_shunt_type(token: TokenView) -> ShuntType {
    match token {
        TokenView::T(_) => ShuntType::Operand,
        TokenView::Plus => ShuntType::Operator { associativity: Associativity::Left, precedence: 0 },
        TokenView::Minus => ShuntType::Operator {
            associativity: Associativity::Left,
            precedence: 0,
        },
        TokenView::Multiply => ShuntType::Operator {
            associativity: Associativity::Left,
            precedence: 1,
        },
        TokenView::Divide => ShuntType::Operator {
            associativity: Associativity::Left,
            precedence: 1,
        },
        TokenView::Power => ShuntType::Operator {
            associativity: Associativity::Left,
            precedence: 2,
        },
        TokenView::Root => ShuntType::Operator { associativity: Associativity::Left, precedence: 2 },
        TokenView::Percent => ShuntType::Operator {
            associativity: Associativity::Left,
            precedence: 2,
        },
        TokenView::OpenBrace => ShuntType::OpenBrace,
        TokenView::CloseBrace => ShuntType::CloseBrace,
    }
}

impl ShuntingYardToken for Token {
    open spec fn shunt_type_spec(token: TokenView) -> ShuntType {
        token_shunt_type(token)
    }

    /// Operands with nothing between them are multiplied.
    open spec fn operand_separator_spec() -> Option<TokenView> {
        Some(TokenView::Multiply)
    }

    fn shunt_type(&self) -> (r: ShuntType) {
        match &self {
            Token::T(_) => ShuntType::Operand,
            Token::Plus => ShuntType::Operator { associativity: Associativity::Left, precedence: 0 },
            Token::Minus => ShuntType::Operator {
                associativity: Associativity::Left,
                precedence: 0,
            },
            Token::Multiply => ShuntType::Operator {
                associativity: Associativity::Left,
                precedence: 1,
            },
            Token::Divide => ShuntType::Operator {
                associativity: Associativity::Left,
                precedence: 1,
            },
            Token::Power => ShuntType::Operator {
                associativity: Associativity::Left,
                precedence: 2,
            },
            Token::Root => ShuntType::Operator { associativity: Associativity::Left, precedence: 2 },
            Token::Percent => ShuntType::Operator {
                associativity: Associativity::Left,
                precedence: 2,
            },
            Token::OpenBrace => ShuntType::OpenBrace,
            Token::CloseBrace => ShuntType::CloseBrace,
        }
    }

    fn operand_separator() -> (r: Option<Self>) {
        Some(Token::Multiply)
    }
}

} // verus!
