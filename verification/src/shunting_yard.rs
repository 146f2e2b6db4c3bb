//! The shunting yard: from infix order to postfix order.
use crate::source::{lemma_views_drop_first, lemma_views_push, views, Source};
use std::collections::VecDeque;
use vstd::prelude::*;

verus! {

/// How operators of one precedence group.
#[derive(Debug, Clone, Copy, PartialEq, Eq, Structural)]
pub enum Associativity {
    Left,
}

/// The part that a token plays in an expression.
#[derive(Debug, Clone, Copy, PartialEq, Eq, Structural)]
pub enum ShuntType {
    Operand,
    Operator { associativity: Associativity, precedence: u8 },
    OpenBrace,
    CloseBrace,
}

/// A token that the yard can place.
pub trait ShuntingYardToken: Sized + View {
    /// The part that a token with this view plays.
    open spec fn shunt_type_spec(token: Self::V) -> ShuntType {
        arbitrary()
    }

    /// The view of the token that stands between two operands with nothing
    /// between them, where there is one.
    open spec fn operand_separator_spec() -> Option<Self::V> {
        arbitrary()
    }

    fn shunt_type(&self) -> (r: ShuntType)
        ensures
            r == Self::shunt_type_spec(self@),
    ;

    /// When two operands have no token between them, this is the token that
    /// should be assumed. It is an operator.
    fn operand_separator() -> (r: Option<Self>)
        ensures
            match r {
                Some(token) => Self::operand_separator_spec() == Some(token@)
                    && Self::shunt_type_spec(token@) is Operator,
                None => Self::operand_separator_spec() is None,
            },
    ;
}

/// What a `ShuntingYard` is to the contracts.
pub ghost struct YardView<V> {
    /// The tokens in postfix order that nobody has taken yet, oldest first.
    pub output: Seq<V>,
    /// The operators and open parentheses that wait, the latest last.
    pub stack: Seq<V>,
    /// Whether an operand was placed and no operator since.
    pub after_operand: bool,
    /// Whether a closing parenthesis came that no open one was waiting for.
    pub unmatched_close: bool,
}

/// The yard before any token.
pub open spec fn empty_yard<V>() -> YardView<V> {
    YardView {
        output: Seq::empty(),
        stack: Seq::empty(),
        after_operand: false,
        unmatched_close: false,
    }
}

/// Whether the waiting token `top` leaves for the output when an operator of
/// precedence `precedence` arrives: it is an operator that binds tighter, or
/// as tight and groups to the left.
pub open spec fn yields_to<T: ShuntingYardToken>(top: T::V, precedence: u8) -> bool {
    match T::shunt_type_spec(top) {
        ShuntType::Operator { associativity, precedence: waiting } => waiting > precedence || (
        waiting == precedence && associativity == Associativity::Left),
        _ => false,
    }
}

/// `yard` with its latest waiting token moved to the output.
pub open spec fn move_top<V>(yard: YardView<V>) -> YardView<V> {
    YardView {
        output: yard.output.push(yard.stack.last()),
        stack: yard.stack.drop_last(),
        after_operand: yard.after_operand,
        unmatched_close: yard.unmatched_close,
    }
}

/// `yard` after every waiting token that yields to an operator of precedence
/// `precedence` has left, the latest first, down to the first that stays.
pub open spec fn pop_operators<T: ShuntingYardToken>(yard: YardView<T::V>, precedence: u8)
    -> YardView<T::V>
    decreases yard.stack.len(),
{
    if yard.stack.len() > 0 && yields_to::<T>(yard.stack.last(), precedence) {
        pop_operators::<T>(move_top(yard), precedence)
    } else {
        yard
    }
}

/// `yard` after a closing parenthesis: the waiting tokens leave, the latest
/// first, down to the latest open parenthesis, which is dropped. Where none
/// waits, all leave and the yard remembers the unmatched parenthesis.
pub open spec fn pop_to_open<T: ShuntingYardToken>(yard: YardView<T::V>) -> YardView<T::V>
    decreases yard.stack.len(),
{
    if yard.stack.len() == 0 {
        YardView {
            output: yard.output,
            stack: yard.stack,
            after_operand: yard.after_operand,
            unmatched_close: true,
        }
    } else if T::shunt_type_spec(yard.stack.last()) is OpenBrace {
        YardView {
            output: yard.output,
            stack: yard.stack.drop_last(),
            after_operand: yard.after_operand,
            unmatched_close: yard.unmatched_close,
        }
    } else {
        pop_to_open::<T>(move_top(yard))
    }
}

/// `yard` after the token `token`.
pub open spec fn push_spec<T: ShuntingYardToken>(yard: YardView<T::V>, token: T::V) -> YardView<
    T::V,
> {
    match T::shunt_type_spec(token) {
        ShuntType::Operand => YardView {
            output: yard.output.push(token),
            stack: if yard.after_operand && T::operand_separator_spec() is Some {
                yard.stack.push(T::operand_separator_spec()->0)
            } else {
                yard.stack
            },
            after_operand: true,
            unmatched_close: yard.unmatched_close,
        },
        ShuntType::Operator { associativity, precedence } => {
            let popped = pop_operators::<T>(yard, precedence);
            YardView {
                output: popped.output,
                stack: popped.stack.push(token),
                after_operand: false,
                unmatched_close: yard.unmatched_close,
            }
        },
        ShuntType::OpenBrace => YardView {
            output: yard.output,
            stack: yard.stack.push(token),
            after_operand: yard.after_operand,
            unmatched_close: yard.unmatched_close,
        },
        ShuntType::CloseBrace => pop_to_open::<T>(yard),
    }
}

/// `yard` at the end of the input: all that waits leaves, the latest first.
pub open spec fn end_spec<V>(yard: YardView<V>) -> YardView<V> {
    YardView {
        output: yard.output + yard.stack.reverse(),
        stack: Seq::empty(),
        after_operand: yard.after_operand,
        unmatched_close: yard.unmatched_close,
    }
}

/// `yard` after the tokens `tokens`, in order.
pub open spec fn push_all<T: ShuntingYardToken>(yard: YardView<T::V>, tokens: Seq<T::V>)
    -> YardView<T::V>
    decreases tokens.len(),
{
    if tokens.len() == 0 {
        yard
    } else {
        push_all::<T>(push_spec::<T>(yard, tokens[0]), tokens.drop_first())
    }
}

/// The tokens in postfix order that are handed out from `yard` on, when
/// `tokens` are the tokens still to come.
pub open spec fn output_from<T: ShuntingYardToken>(yard: YardView<T::V>, tokens: Seq<T::V>)
    -> Seq<T::V> {
    end_spec(push_all::<T>(yard, tokens)).output
}

/// The infix sequence `tokens` in postfix order.
pub open spec fn shunt_spec<T: ShuntingYardToken>(tokens: Seq<T::V>) -> Seq<T::V> {
    output_from::<T>(empty_yard(), tokens)
}

/// Whether a closing parenthesis of `tokens` has no open one before it, or
/// `yard` has seen one already.
pub open spec fn unmatched_close_from<T: ShuntingYardToken>(
    yard: YardView<T::V>,
    tokens: Seq<T::V>,
) -> bool {
    push_all::<T>(yard, tokens).unmatched_close
}

/// Whether a closing parenthesis of `tokens` has no open one before it.
pub open spec fn has_unmatched_close<T: ShuntingYardToken>(tokens: Seq<T::V>) -> bool {
    unmatched_close_from::<T>(empty_yard(), tokens)
}

/// `yard` without the oldest token of its output.
pub open spec fn without_head<V>(yard: YardView<V>) -> YardView<V> {
    YardView {
        output: yard.output.drop_first(),
        stack: yard.stack,
        after_operand: yard.after_operand,
        unmatched_close: yard.unmatched_close,
    }
}

/// The operators that leave for an operator do not touch the oldest token
/// of the output.
proof fn lemma_pop_operators_head<T: ShuntingYardToken>(yard: YardView<T::V>, precedence: u8)
    requires
        yard.output.len() > 0,
    ensures
        pop_operators::<T>(yard, precedence).output.len() > 0,
        pop_operators::<T>(yard, precedence).output[0] == yard.output[0],
        pop_operators::<T>(without_head(yard), precedence) == without_head(
            pop_operators::<T>(yard, precedence),
        ),
    decreases yard.stack.len(),
{
    if yard.stack.len() > 0 && yields_to::<T>(yard.stack.last(), precedence) {
        lemma_pop_operators_head::<T>(move_top(yard), precedence);
        assert(move_top(without_head(yard)) == without_head(move_top(yard))) by {
            assert(yard.output.drop_first().push(yard.stack.last()) == yard.output.push(
                yard.stack.last(),
            ).drop_first());
        }
    }
}

/// What leaves for a closing parenthesis does not touch the oldest token of
/// the output.
proof fn lemma_pop_to_open_head<T: ShuntingYardToken>(yard: YardView<T::V>)
    requires
        yard.output.len() > 0,
    ensures
        pop_to_open::<T>(yard).output.len() > 0,
        pop_to_open::<T>(yard).output[0] == yard.output[0],
        pop_to_open::<T>(without_head(yard)) == without_head(pop_to_open::<T>(yard)),
    decreases yard.stack.len(),
{
    if yard.stack.len() > 0 && !(T::shunt_type_spec(yard.stack.last()) is OpenBrace) {
        lemma_pop_to_open_head::<T>(move_top(yard));
        assert(move_top(without_head(yard)) == without_head(move_top(yard))) by {
            assert(yard.output.drop_first().push(yard.stack.last()) == yard.output.push(
                yard.stack.last(),
            ).drop_first());
        }
    }
}

/// No token touches the oldest token of the output.
proof fn lemma_push_head<T: ShuntingYardToken>(yard: YardView<T::V>, token: T::V)
    requires
        yard.output.len() > 0,
    ensures
        push_spec::<T>(yard, token).output.len() > 0,
        push_spec::<T>(yard, token).output[0] == yard.output[0],
        push_spec::<T>(without_head(yard), token) == without_head(push_spec::<T>(yard, token)),
{
    match T::shunt_type_spec(token) {
        ShuntType::Operand => {
            assert(yard.output.drop_first().push(token) == yard.output.push(token).drop_first());
        },
        ShuntType::Operator { associativity, precedence } => {
            lemma_pop_operators_head::<T>(yard, precedence);
        },
        ShuntType::OpenBrace => {},
        ShuntType::CloseBrace => {
            lemma_pop_to_open_head::<T>(yard);
        },
    }
}

/// The oldest token of the output is the first to be handed out, whatever
/// comes after it.
proof fn lemma_output_from_head<T: ShuntingYardToken>(yard: YardView<T::V>, tokens: Seq<T::V>)
    requires
        yard.output.len() > 0,
    ensures
        output_from::<T>(yard, tokens).len() > 0,
        output_from::<T>(yard, tokens)[0] == yard.output[0],
        output_from::<T>(without_head(yard), tokens) == output_from::<T>(yard, tokens).drop_first(),
        unmatched_close_from::<T>(without_head(yard), tokens) == unmatched_close_from::<T>(
            yard,
            tokens,
        ),
    decreases tokens.len(),
{
    if tokens.len() > 0 {
        lemma_push_head::<T>(yard, tokens[0]);
        lemma_output_from_head::<T>(push_spec::<T>(yard, tokens[0]), tokens.drop_first());
    }
}

/// The views of the tokens of a stack of tokens with their parts.
pub open spec fn stack_views<T: View>(stack: Seq<(T, ShuntType)>) -> Seq<T::V> {
    stack.map_values(|entry: (T, ShuntType)| entry.0@)
}

/// The yard: the output queue, the stack of operators that wait, and whether
/// the last token placed was an operand.
pub struct ShuntingYard<T: ShuntingYardToken> {
    output_queue: VecDeque<T>,
    operator_stack: Vec<(T, ShuntType)>,
    last_shunt_type: Option<ShuntType>,
    unmatched_close: bool,
}

impl<T: ShuntingYardToken> View for ShuntingYard<T> {
    type V = YardView<T::V>;

    closed spec fn view(&self) -> YardView<T::V> {
        YardView {
            output: views(self.output_queue@),
            stack: stack_views(self.operator_stack@),
            after_operand: self.last_shunt_type is Some,
            unmatched_close: self.unmatched_close,
        }
    }
}

impl<T: ShuntingYardToken> Default for ShuntingYard<T> {
    fn default() -> (r: Self)
        ensures
            r.wf(),
            r@ == empty_yard::<T::V>(),
    {
        Self::new()
    }
}

impl<T: ShuntingYardToken> ShuntingYard<T> {
    /// Each waiting token stands with its own part, and none of them is an
    /// operand. A closing parenthesis never waits either.
    pub closed spec fn wf(&self) -> bool {
        forall|i: int|
            0 <= i < self.operator_stack@.len() ==> {
                let entry = #[trigger] self.operator_stack@[i];
                &&& entry.1 == T::shunt_type_spec(entry.0@)
                &&& (entry.1 is Operator || entry.1 is OpenBrace)
            }
    }

    /// The yard before any token.
    pub fn new() -> (r: Self)
        ensures
            r.wf(),
            r@ == empty_yard::<T::V>(),
    {
        let r = Self {
            output_queue: VecDeque::new(),
            operator_stack: Vec::new(),
            last_shunt_type: None,
            unmatched_close: false,
        };
        assert(views(r.output_queue@) == Seq::<T::V>::empty());
        assert(stack_views(r.operator_stack@) == Seq::<T::V>::empty());
        r
    }

    /// Moves the latest waiting token to the output.
    fn move_top(&mut self)
        requires
            old(self).wf(),
            old(self)@.stack.len() > 0,
        ensures
            final(self).wf(),
            final(self)@ == move_top(old(self)@),
    {
        let ghost stack = self.operator_stack@;
        let entry = self.operator_stack.pop();
        assert(stack_views(self.operator_stack@) == stack_views(stack).drop_last());
        match entry {
            Some((token, _)) => {
                proof {
                    lemma_views_push(self.output_queue@, token);
                }
                self.output_queue.push_back(token);
            },
            None => {},
        }
    }

    /// Drops the latest waiting token.
    fn drop_top(&mut self)
        requires
            old(self).wf(),
            old(self)@.stack.len() > 0,
        ensures
            final(self).wf(),
            final(self)@.output == old(self)@.output,
            final(self)@.stack == old(self)@.stack.drop_last(),
            final(self)@.after_operand == old(self)@.after_operand,
            final(self)@.unmatched_close == old(self)@.unmatched_close,
    {
        self.operator_stack.pop();
    }

    /// Lets `token` wait, with its part `shunt_type`.
    fn wait(&mut self, token: T, shunt_type: ShuntType)
        requires
            old(self).wf(),
            shunt_type == T::shunt_type_spec(token@),
            shunt_type is Operator || shunt_type is OpenBrace,
        ensures
            final(self).wf(),
            final(self)@.output == old(self)@.output,
            final(self)@.stack == old(self)@.stack.push(token@),
            final(self)@.after_operand == old(self)@.after_operand,
            final(self)@.unmatched_close == old(self)@.unmatched_close,
    {
        self.operator_stack.push((token, shunt_type));
    }

    /// The part of the latest waiting token.
    fn top(&self) -> (r: Option<ShuntType>)
        requires
            self.wf(),
        ensures
            match r {
                Some(shunt_type) => self@.stack.len() > 0 && shunt_type == T::shunt_type_spec(
                    self@.stack.last(),
                ),
                None => self@.stack.len() == 0,
            },
    {
        let n = self.operator_stack.len();
        if n == 0 {
            None
        } else {
            Some(self.operator_stack[n - 1].1)
        }
    }

    /// Places one token of the infix sequence.
    pub fn push(&mut self, token: T)
        requires
            old(self).wf(),
        ensures
            final(self).wf(),
            final(self)@ == push_spec::<T>(old(self)@, token@),
    {
        let shunt_type = token.shunt_type();
        match shunt_type {
            ShuntType::Operand => {
                let previous_shunt_type = self.last_shunt_type;
                self.last_shunt_type = Some(shunt_type);
                proof {
                    lemma_views_push(self.output_queue@, token);
                }
                self.output_queue.push_back(token);
                if previous_shunt_type.is_some() {
                    if let Some(injected_separator_token) = T::operand_separator() {
                        let injected_shunt_type = injected_separator_token.shunt_type();
                        self.wait(injected_separator_token, injected_shunt_type);
                    }
                }
            },
            ShuntType::Operator { associativity: _, precedence: o1precedence } => {
                self.last_shunt_type = None;
                let ghost start = self@;
                loop
                    invariant
                        self.wf(),
                        pop_operators::<T>(self@, o1precedence) == pop_operators::<T>(
                            start,
                            o1precedence,
                        ),
                        self@.unmatched_close == start.unmatched_close,
                    ensures
                        self.wf(),
                        self@ == pop_operators::<T>(start, o1precedence),
                        self@.unmatched_close == start.unmatched_close,
                    decreases self@.stack.len(),
                {
                    match self.top() {
                        Some(ShuntType::Operator {
                            associativity: o2associativity,
                            precedence: o2precedence,
                        }) => {
                            if o2precedence > o1precedence || o2precedence == o1precedence
                                && o2associativity == Associativity::Left {
                                self.move_top();
                            } else {
                                break ;
                            }
                        },
                        _ => {
                            break ;
                        },
                    }
                }
                assert(pop_operators::<T>(old(self)@, o1precedence).unmatched_close == old(
                    self,
                )@.unmatched_close) by {
                    lemma_pop_operators_keeps::<T>(old(self)@, o1precedence);
                }
                assert(pop_operators::<T>(start, o1precedence) == (YardView {
                    after_operand: false,
                    ..pop_operators::<T>(old(self)@, o1precedence)
                })) by {
                    lemma_pop_operators_flag::<T>(old(self)@, o1precedence, false);
                }
                self.wait(token, shunt_type);
            },
            ShuntType::OpenBrace => {
                self.wait(token, shunt_type);
            },
            ShuntType::CloseBrace => {
                let ghost start = self@;
                loop
                    invariant_except_break
                        pop_to_open::<T>(self@) == pop_to_open::<T>(start),
                    invariant
                        self.wf(),
                    ensures
                        self.wf(),
                        self@ == pop_to_open::<T>(start),
                    decreases self@.stack.len(),
                {
                    match self.top() {
                        None => {
                            self.unmatched_close = true;
                            break ;
                        },
                        Some(ShuntType::OpenBrace) => {
                            // Discard
                            self.drop_top();
                            break ;
                        },
                        Some(_) => {
                            self.move_top();
                        },
                    }
                }
            },
        }
    }

    /// Moves all that waits to the output, the latest first.
    pub fn end(&mut self)
        requires
            old(self).wf(),
        ensures
            final(self).wf(),
            final(self)@ == end_spec(old(self)@),
    {
        let ghost start = self@;
        loop
            invariant
                self.wf(),
                end_spec(self@) == end_spec(start),
            ensures
                self.wf(),
                self@ == end_spec(start),
            decreases self@.stack.len(),
        {
            let ghost before = self@;
            match self.top() {
                Some(_) => {
                    self.move_top();
                    assert(end_spec(self@) == end_spec(before)) by {
                        assert(before.output.push(before.stack.last())
                            + before.stack.drop_last().reverse() == before.output
                            + before.stack.reverse());
                    }
                },
                None => {
                    assert(before.stack == Seq::<T::V>::empty());
                    break ;
                },
            }
        }
    }

    /// The oldest token of the output, which leaves it.
    fn take_output(&mut self) -> (r: Option<T>)
        requires
            old(self).wf(),
        ensures
            final(self).wf(),
            match r {
                Some(token) => old(self)@.output.len() > 0 && token@ == old(self)@.output[0]
                    && final(self)@ == without_head(old(self)@),
                None => old(self)@.output.len() == 0 && final(self)@ == old(self)@,
            },
    {
        let ghost queue = self.output_queue@;
        let front = self.output_queue.pop_front();
        proof {
            if queue.len() > 0 {
                lemma_views_drop_first(queue);
            }
        }
        front
    }

    /// Whether a closing parenthesis came that no open one was waiting for.
    pub fn unmatched_close(&self) -> (r: bool)
        ensures
            r == self@.unmatched_close,
    {
        self.unmatched_close
    }

    /// In a yard no operand and no closing parenthesis waits among the
    /// operators.
    pub proof fn lemma_holds_no_operand(&self)
        requires
            self.wf(),
        ensures
            holds_no_operand::<T>(self@.stack),
    {
    }

    /// Consumes the `ShuntingYard` into reverse polish notation.
    pub fn into_vec(self) -> (tokens: Vec<T>)
        requires
            self.wf(),
        ensures
            views(tokens@) == end_spec(self@).output,
    {
        let mut yard = self;
        yard.end();
        let mut tokens: Vec<T> = Vec::new();
        let ghost all = yard@.output;
        loop
            invariant
                yard.wf(),
                views(tokens@) + yard@.output == all,
            ensures
                views(tokens@) == all,
            decreases yard@.output.len(),
        {
            match yard.take_output() {
                Some(token) => {
                    proof {
                        lemma_views_push(tokens@, token);
                    }
                    tokens.push(token);
                },
                None => {
                    break ;
                },
            }
        }
        tokens
    }
}

/// The operators that leave for an operator change nothing but the stack
/// and the output.
proof fn lemma_pop_operators_keeps<T: ShuntingYardToken>(yard: YardView<T::V>, precedence: u8)
    ensures
        pop_operators::<T>(yard, precedence).unmatched_close == yard.unmatched_close,
        pop_operators::<T>(yard, precedence).after_operand == yard.after_operand,
    decreases yard.stack.len(),
{
    if yard.stack.len() > 0 && yields_to::<T>(yard.stack.last(), precedence) {
        lemma_pop_operators_keeps::<T>(move_top(yard), precedence);
    }
}

/// Which operators leave for an operator does not depend on whether an
/// operand came last.
proof fn lemma_pop_operators_flag<T: ShuntingYardToken>(
    yard: YardView<T::V>,
    precedence: u8,
    flag: bool,
)
    ensures
        pop_operators::<T>(YardView { after_operand: flag, ..yard }, precedence) == (YardView {
            after_operand: flag,
            ..pop_operators::<T>(yard, precedence)
        }),
    decreases yard.stack.len(),
{
    if yard.stack.len() > 0 && yields_to::<T>(yard.stack.last(), precedence) {
        lemma_pop_operators_flag::<T>(move_top(yard), precedence, flag);
    }
}

/// Whether no operand and no closing parenthesis waits in `stack`.
pub open spec fn holds_no_operand<T: ShuntingYardToken>(stack: Seq<T::V>) -> bool {
    forall|i: int|
        0 <= i < stack.len() ==> T::shunt_type_spec(#[trigger] stack[i]) is Operator
            || T::shunt_type_spec(stack[i]) is OpenBrace
}

/// Whether what stands between two operands with nothing between them is an
/// operator, as `operand_separator` promises.
pub open spec fn separator_is_operator<T: ShuntingYardToken>() -> bool {
    T::operand_separator_spec() matches Some(separator) ==> T::shunt_type_spec(separator)
        is Operator
}

/// The operators that leave for an operator leave no operand behind.
proof fn lemma_pop_operators_holds_no_operand<T: ShuntingYardToken>(
    yard: YardView<T::V>,
    precedence: u8,
)
    requires
        holds_no_operand::<T>(yard.stack),
    ensures
        holds_no_operand::<T>(pop_operators::<T>(yard, precedence).stack),
    decreases yard.stack.len(),
{
    if yard.stack.len() > 0 && yields_to::<T>(yard.stack.last(), precedence) {
        lemma_pop_operators_holds_no_operand::<T>(move_top(yard), precedence);
    }
}

/// What leaves for a closing parenthesis leaves no operand behind.
proof fn lemma_pop_to_open_holds_no_operand<T: ShuntingYardToken>(yard: YardView<T::V>)
    requires
        holds_no_operand::<T>(yard.stack),
    ensures
        holds_no_operand::<T>(pop_to_open::<T>(yard).stack),
    decreases yard.stack.len(),
{
    if yard.stack.len() > 0 {
        if !(T::shunt_type_spec(yard.stack.last()) is OpenBrace) {
            lemma_pop_to_open_holds_no_operand::<T>(move_top(yard));
        }
    }
}

/// No token makes an operand or a closing parenthesis wait.
pub proof fn theorem_push_holds_no_operand<T: ShuntingYardToken>(yard: YardView<T::V>, token: T::V)
    requires
        separator_is_operator::<T>(),
        holds_no_operand::<T>(yard.stack),
    ensures
        holds_no_operand::<T>(push_spec::<T>(yard, token).stack),
{
    match T::shunt_type_spec(token) {
        ShuntType::Operand => {},
        ShuntType::Operator { associativity, precedence } => {
            lemma_pop_operators_holds_no_operand::<T>(yard, precedence);
        },
        ShuntType::OpenBrace => {},
        ShuntType::CloseBrace => {
            lemma_pop_to_open_holds_no_operand::<T>(yard);
        },
    }
}

/// Whatever the tokens, no operand and no closing parenthesis ever waits
/// among the operators.
pub proof fn theorem_no_operand_ever_waits<T: ShuntingYardToken>(
    yard: YardView<T::V>,
    tokens: Seq<T::V>,
)
    requires
        separator_is_operator::<T>(),
        holds_no_operand::<T>(yard.stack),
    ensures
        holds_no_operand::<T>(push_all::<T>(yard, tokens).stack),
    decreases tokens.len(),
{
    if tokens.len() > 0 {
        theorem_push_holds_no_operand::<T>(yard, tokens[0]);
        theorem_no_operand_ever_waits::<T>(push_spec::<T>(yard, tokens[0]), tokens.drop_first());
    }
}

/// The postfix order of a sequence of tokens, made as it is asked for.
#[verifier::reject_recursive_types(T)]
pub struct Shunted<T: ShuntingYardToken, I: Source<Item = T>> {
    iter: I,
    yard: ShuntingYard<T>,
}

impl<T: ShuntingYardToken, I: Source<Item = T>> Shunted<T, I> {
    /// Whether, once all tokens are placed, a closing parenthesis will have
    /// come that no open one was waiting for.
    pub closed spec fn unmatched_close(&self) -> bool {
        unmatched_close_from::<T>(self.yard@, self.iter.remaining())
    }

    /// Whether a closing parenthesis has come that no open one was waiting
    /// for, among the tokens placed so far.
    pub closed spec fn seen_unmatched_close(&self) -> bool {
        self.yard@.unmatched_close
    }

    /// Whether a closing parenthesis came that no open one was waiting for,
    /// among the tokens placed so far: at the end, among all.
    pub fn saw_unmatched_close(&self) -> (r: bool)
        ensures
            r == self.seen_unmatched_close(),
            self.ended() ==> r == self.unmatched_close(),
    {
        self.yard.unmatched_close()
    }

    /// Whether the tokens to be placed have all been taken.
    pub closed spec fn ended(&self) -> bool {
        self.iter.remaining().len() == 0
    }
}

impl<T: ShuntingYardToken, I: Source<Item = T>> Source for Shunted<T, I> {
    type Item = T;

    closed spec fn wf(&self) -> bool {
        self.iter.wf() && self.yard.wf()
    }

    closed spec fn remaining(&self) -> Seq<T::V> {
        output_from::<T>(self.yard@, self.iter.remaining())
    }

    fn next(&mut self) -> (r: Option<T>)
        ensures
            final(self).unmatched_close() == old(self).unmatched_close(),
            r is None ==> final(self).ended(),
    {
        let ghost tokens = self.iter.remaining();
        let ghost yard = self.yard@;
        let front = self.yard.take_output();
        if front.is_some() {
            proof {
                lemma_output_from_head::<T>(yard, tokens);
            }
            return front;
        }
        loop
            invariant
                self.iter.wf(),
                self.yard.wf(),
                self.yard@.output.len() == 0,
                self.remaining() == old(self).remaining(),
                self.unmatched_close() == old(self).unmatched_close(),
            decreases self.iter.remaining().len(),
        {
            let input = self.iter.next();
            match input {
                None => {
                    self.yard.end();
                    let ghost ended = self.yard@;
                    assert(end_spec(ended) == ended);
                    let front = self.yard.take_output();
                    proof {
                        if front.is_some() {
                            lemma_output_from_head::<T>(ended, self.iter.remaining());
                        }
                    }
                    return front;
                },
                Some(next) => {
                    self.yard.push(next);
                },
            };
            let ghost tokens = self.iter.remaining();
            let ghost yard = self.yard@;
            let front = self.yard.take_output();
            if front.is_some() {
                proof {
                    lemma_output_from_head::<T>(yard, tokens);
                }
                return front;
            }
        }
    }
}

/// What can be put in postfix order.
pub trait Shunt<T: ShuntingYardToken, I: Source<Item = T>>: Source<Item = T> {
    fn shunt(self) -> (r: Shunted<T, I>)
        requires
            self.wf(),
        ensures
            r.wf(),
            r.remaining() == shunt_spec::<T>(self.remaining()),
            r.unmatched_close() == has_unmatched_close::<T>(self.remaining()),
    ;
}

impl<T: ShuntingYardToken, I: Source<Item = T>> Shunt<T, I> for I {
    fn shunt(self) -> (r: Shunted<T, I>) {
        Shunted { iter: self, yard: ShuntingYard::new() }
    }
}

/// The part that a text plays when it is taken for a token: the signs `+`,
/// `-` and `*` are operators, the round brackets are the parentheses, and any
/// other text is an operand.
pub open spec fn text_shunt_type(text: Seq<char>) -> ShuntType {
    if text.len() != 1 {
        ShuntType::Operand
    } else if text[0] == '+' || text[0] == '-' {
        ShuntType::Operator { associativity: Associativity::Left, precedence: 0 }
    } else if text[0] == '*' {
        ShuntType::Operator { associativity: Associativity::Left, precedence: 1 }
    } else if text[0] == '(' {
        ShuntType::OpenBrace
    } else if text[0] == ')' {
        ShuntType::CloseBrace
    } else {
        ShuntType::Operand
    }
}

impl<'a> ShuntingYardToken for &'a str {
    open spec fn shunt_type_spec(token: Seq<char>) -> ShuntType {
        text_shunt_type(token)
    }

    open spec fn operand_separator_spec() -> Option<Seq<char>> {
        Some(seq!['*'])
    }

    fn shunt_type(&self) -> (r: ShuntType) {
        if self.unicode_len() != 1 {
            return ShuntType::Operand;
        }
        let c = self.get_char(0);
        if c == '+' || c == '-' {
            ShuntType::Operator { associativity: Associativity::Left, precedence: 0 }
        } else if c == '*' {
            ShuntType::Operator { associativity: Associativity::Left, precedence: 1 }
        } else if c == '(' {
            ShuntType::OpenBrace
        } else if c == ')' {
            ShuntType::CloseBrace
        } else {
            ShuntType::Operand
        }
    }

    fn operand_separator() -> (r: Option<Self>) {
        proof {
            reveal_strlit("*");
        }
        Some("*")
    }
}

} // verus!
