//! Expressions as trees, and the proof that the shunting yard reads them as
//! the precedence of their operators says.
use crate::shunting_yard::{
    empty_yard, has_unmatched_close, move_top, pop_operators, pop_to_open, push_all, push_spec,
    shunt_spec, yields_to, Associativity, ShuntType, ShuntingYardToken, YardView,
};
use vstd::prelude::*;

verus! {

/// An expression over tokens with views `V`.
pub ghost enum Expression<V> {
    /// An operand.
    Operand(V),
    /// A left operand, an operator and a right operand.
    Binary(Box<Expression<V>>, V, Box<Expression<V>>),
    /// An operand and the operator that follows it.
    Postfix(Box<Expression<V>>, V),
    /// An expression between an open and a closing parenthesis.
    Group(V, Box<Expression<V>>, V),
}

/// The tokens of `e` as they are written, from left to right.
pub open spec fn infix<V>(e: Expression<V>) -> Seq<V>
    decreases e,
{
    match e {
        Expression::Operand(token) => seq![token],
        Expression::Binary(left, operator, right) => infix(*left).push(operator) + infix(*right),
        Expression::Postfix(operand, operator) => infix(*operand).push(operator),
        Expression::Group(open, inner, close) => seq![open] + infix(*inner).push(close),
    }
}

/// The tokens of `e` in postfix order: each operator after its operands, and
/// no parentheses.
pub open spec fn postfix<V>(e: Expression<V>) -> Seq<V>
    decreases e,
{
    match e {
        Expression::Operand(token) => seq![token],
        Expression::Binary(left, operator, right) => (postfix(*left) + postfix(*right)).push(
            operator,
        ),
        Expression::Postfix(operand, operator) => postfix(*operand).push(operator),
        Expression::Group(open, inner, close) => postfix(*inner),
    }
}

/// The operator that `e` applies last, where it is not an operand or in
/// parentheses.
pub open spec fn last_applied<V>(e: Expression<V>) -> Option<V> {
    match e {
        Expression::Binary(left, operator, right) => Some(operator),
        Expression::Postfix(operand, operator) => Some(operator),
        _ => None,
    }
}

/// Whether `token` is an operator of precedence `precedence` or more.
pub open spec fn binds_at_least<T: ShuntingYardToken>(token: T::V, precedence: int) -> bool {
    T::shunt_type_spec(token) is Operator && T::shunt_type_spec(token)->precedence >= precedence
}

/// Whether the operand `e` of an operator needs no parentheses: it is an
/// operand or in parentheses, or the operator that it applies last has the
/// precedence `precedence` or more.
pub open spec fn binds_as_operand<T: ShuntingYardToken>(e: Expression<T::V>, precedence: int)
    -> bool {
    match last_applied(e) {
        Some(operator) => binds_at_least::<T>(operator, precedence),
        None => true,
    }
}

/// Whether `e` is written as it is meant: its tokens play their parts, a left
/// operand applies no operator that binds less than its own operator, and a
/// right operand only operators that bind more. So operators of one
/// precedence group to the left, and what binds less stands in parentheses.
pub open spec fn well_formed<T: ShuntingYardToken>(e: Expression<T::V>) -> bool
    decreases e,
{
    match e {
        Expression::Operand(token) => T::shunt_type_spec(token) is Operand,
        Expression::Binary(left, operator, right) => {
            &&& T::shunt_type_spec(operator) is Operator
            &&& well_formed::<T>(*left)
            &&& well_formed::<T>(*right)
            &&& binds_as_operand::<T>(*left, T::shunt_type_spec(operator)->precedence as int)
            &&& binds_as_operand::<T>(*right, T::shunt_type_spec(operator)->precedence + 1)
        },
        Expression::Postfix(operand, operator) => {
            &&& T::shunt_type_spec(operator) is Operator
            &&& well_formed::<T>(*operand)
            &&& binds_as_operand::<T>(*operand, T::shunt_type_spec(operator)->precedence as int)
        },
        Expression::Group(open, inner, close) => {
            &&& T::shunt_type_spec(open) is OpenBrace
            &&& T::shunt_type_spec(close) is CloseBrace
            &&& well_formed::<T>(*inner)
        },
    }
}

/// The operators of `e` that still wait when its last token is placed: the
/// one it applies last, then those of its right operand.
pub open spec fn waiting<V>(e: Expression<V>) -> Seq<V>
    decreases e,
{
    match e {
        Expression::Binary(left, operator, right) => seq![operator] + waiting(*right),
        Expression::Postfix(operand, operator) => seq![operator],
        _ => Seq::empty(),
    }
}

/// The tokens of `e` that are in the output when its last token is placed.
pub open spec fn placed<V>(e: Expression<V>) -> Seq<V>
    decreases e,
{
    match e {
        Expression::Operand(token) => seq![token],
        Expression::Binary(left, operator, right) => postfix(*left) + placed(*right),
        Expression::Postfix(operand, operator) => postfix(*operand),
        Expression::Group(open, inner, close) => postfix(*inner),
    }
}

/// Whether the last token of `e` that is no parenthesis is an operand.
pub open spec fn ends_with_operand<V>(e: Expression<V>) -> bool
    decreases e,
{
    match e {
        Expression::Operand(token) => true,
        Expression::Binary(left, operator, right) => ends_with_operand(*right),
        Expression::Postfix(operand, operator) => false,
        Expression::Group(open, inner, close) => ends_with_operand(*inner),
    }
}

/// The postfix order is what is placed, then what waits, the latest first.
pub proof fn lemma_postfix_is_placed_and_waiting<V>(e: Expression<V>)
    ensures
        postfix(e) == placed(e) + waiting(e).reverse(),
    decreases e,
{
    match e {
        Expression::Operand(token) => {},
        Expression::Binary(left, operator, right) => {
            lemma_postfix_is_placed_and_waiting(*right);
        },
        Expression::Postfix(operand, operator) => {},
        Expression::Group(open, inner, close) => {},
    }
}

/// Every operator of `e` that waits at its end yields to an operator that
/// binds no more than the one `e` applies last.
proof fn lemma_waiting_yields<T: ShuntingYardToken>(e: Expression<T::V>, precedence: u8)
    requires
        well_formed::<T>(e),
        binds_as_operand::<T>(e, precedence as int),
    ensures
        forall|i: int|
            0 <= i < waiting(e).len() ==> yields_to::<T>(#[trigger] waiting(e)[i], precedence),
        forall|i: int|
            0 <= i < waiting(e).len() ==> T::shunt_type_spec(#[trigger] waiting(e)[i]) is Operator,
    decreases e,
{
    match e {
        Expression::Binary(left, operator, right) => {
            lemma_waiting_yields::<T>(*right, precedence);
            lemma_left_is_the_only_way(T::shunt_type_spec(operator));
        },
        Expression::Postfix(operand, operator) => {
            lemma_left_is_the_only_way(T::shunt_type_spec(operator));
        },
        _ => {},
    }
}

/// What a well-formed expression applies last is an operator.
proof fn lemma_applies_an_operator<T: ShuntingYardToken>(e: Expression<T::V>)
    requires
        well_formed::<T>(e),
    ensures
        binds_as_operand::<T>(e, 0),
{
}

/// Operators group to the left: there is no other way.
proof fn lemma_left_is_the_only_way(shunt_type: ShuntType)
    ensures
        shunt_type matches ShuntType::Operator { associativity, .. } ==> associativity
            == Associativity::Left,
{
    match shunt_type {
        ShuntType::Operator { associativity, precedence } => {
            match associativity {
                Associativity::Left => {},
            }
        },
        _ => {},
    }
}

/// Whether the operators of `e` leave what waits in `stack` where it is: the
/// latest waiting token does not yield to the operator that `e` applies
/// last.
pub open spec fn shielded<T: ShuntingYardToken>(stack: Seq<T::V>, e: Expression<T::V>) -> bool {
    match last_applied(e) {
        Some(operator) => stack.len() == 0 || !yields_to::<T>(
            stack.last(),
            T::shunt_type_spec(operator)->precedence,
        ),
        None => true,
    }
}

/// An operator sends to the output all the operators of `run` that wait above
/// `below`, the latest first, where each of them yields to it and the latest
/// of `below` does not.
proof fn lemma_pop_operators_run<T: ShuntingYardToken>(
    yard: YardView<T::V>,
    below: Seq<T::V>,
    run: Seq<T::V>,
    precedence: u8,
)
    requires
        yard.stack == below + run,
        forall|i: int| 0 <= i < run.len() ==> yields_to::<T>(#[trigger] run[i], precedence),
        below.len() == 0 || !yields_to::<T>(below.last(), precedence),
    ensures
        pop_operators::<T>(yard, precedence) == (YardView {
            output: yard.output + run.reverse(),
            stack: below,
            after_operand: yard.after_operand,
            unmatched_close: yard.unmatched_close,
        }),
    decreases run.len(),
{
    if run.len() > 0 {
        let next = move_top(yard);
        assert(next.stack =~= below + run.drop_last());
        lemma_pop_operators_run::<T>(next, below, run.drop_last(), precedence);
        assert(next.output + run.drop_last().reverse() =~= yard.output + run.reverse());
    }
}

/// A closing parenthesis sends to the output all the operators of `run` that
/// wait above the open parenthesis `open`, the latest first, and drops the
/// parenthesis.
proof fn lemma_pop_to_open_run<T: ShuntingYardToken>(
    yard: YardView<T::V>,
    below: Seq<T::V>,
    open: T::V,
    run: Seq<T::V>,
)
    requires
        yard.stack == below.push(open) + run,
        T::shunt_type_spec(open) is OpenBrace,
        forall|i: int| 0 <= i < run.len() ==> T::shunt_type_spec(#[trigger] run[i]) is Operator,
    ensures
        pop_to_open::<T>(yard) == (YardView {
            output: yard.output + run.reverse(),
            stack: below,
            after_operand: yard.after_operand,
            unmatched_close: yard.unmatched_close,
        }),
    decreases run.len(),
{
    if run.len() == 0 {
        assert(yard.stack.drop_last() =~= below);
    } else {
        let next = move_top(yard);
        assert(next.stack =~= below.push(open) + run.drop_last());
        lemma_pop_to_open_run::<T>(next, below, open, run.drop_last());
        assert(next.output + run.drop_last().reverse() =~= yard.output + run.reverse());
    }
}

/// Placing one sequence of tokens after another is placing the two in a row.
pub proof fn lemma_push_all_append<T: ShuntingYardToken>(
    yard: YardView<T::V>,
    first: Seq<T::V>,
    second: Seq<T::V>,
)
    ensures
        push_all::<T>(yard, first + second) == push_all::<T>(push_all::<T>(yard, first), second),
    decreases first.len(),
{
    if first.len() > 0 {
        assert((first + second).drop_first() =~= first.drop_first() + second);
        lemma_push_all_append::<T>(
            push_spec::<T>(yard, first[0]),
            first.drop_first(),
            second,
        );
    }
}

/// Placing one token after a sequence of tokens.
proof fn lemma_push_all_push<T: ShuntingYardToken>(
    yard: YardView<T::V>,
    tokens: Seq<T::V>,
    token: T::V,
)
    ensures
        push_all::<T>(yard, tokens.push(token)) == push_spec::<T>(
            push_all::<T>(yard, tokens),
            token,
        ),
{
    reveal_with_fuel(push_all, 2);
    assert(tokens.push(token) =~= tokens + seq![token]);
    lemma_push_all_append::<T>(yard, tokens, seq![token]);
}

/// The yard after the tokens of a well-formed expression: what is placed of
/// it has joined the output, and what waits of it the stack.
pub proof fn lemma_yard_after_expression<T: ShuntingYardToken>(
    yard: YardView<T::V>,
    e: Expression<T::V>,
)
    requires
        well_formed::<T>(e),
        !yard.after_operand,
        shielded::<T>(yard.stack, e),
    ensures
        push_all::<T>(yard, infix(e)) == (YardView {
            output: yard.output + placed(e),
            stack: yard.stack + waiting(e),
            after_operand: ends_with_operand(e),
            unmatched_close: yard.unmatched_close,
        }),
    decreases e,
{
    match e {
        Expression::Operand(token) => {
            reveal_with_fuel(push_all, 2);
            let after = push_spec::<T>(yard, token);
            assert(after.output =~= yard.output + placed(e));
        },
        Expression::Binary(left, operator, right) => {
            let precedence = T::shunt_type_spec(operator)->precedence;
            lemma_left_is_the_only_way(T::shunt_type_spec(operator));
            // The left operand.
            lemma_yard_after_expression::<T>(yard, *left);
            let after_left = push_all::<T>(yard, infix(*left));
            // The operator.
            lemma_waiting_yields::<T>(*left, precedence);
            lemma_pop_operators_run::<T>(after_left, yard.stack, waiting(*left), precedence);
            lemma_postfix_is_placed_and_waiting(*left);
            lemma_push_all_push::<T>(yard, infix(*left), operator);
            let after_operator = push_spec::<T>(after_left, operator);
            // The right operand.
            lemma_yard_after_expression::<T>(after_operator, *right);
            lemma_push_all_append::<T>(yard, infix(*left).push(operator), infix(*right));
            assert(after_operator.output + placed(*right) =~= yard.output + placed(e));
            assert(after_operator.stack + waiting(*right) =~= yard.stack + waiting(e));
        },
        Expression::Postfix(operand, operator) => {
            let precedence = T::shunt_type_spec(operator)->precedence;
            lemma_left_is_the_only_way(T::shunt_type_spec(operator));
            lemma_yard_after_expression::<T>(yard, *operand);
            let after_operand = push_all::<T>(yard, infix(*operand));
            lemma_waiting_yields::<T>(*operand, precedence);
            lemma_pop_operators_run::<T>(after_operand, yard.stack, waiting(*operand), precedence);
            lemma_postfix_is_placed_and_waiting(*operand);
            lemma_push_all_push::<T>(yard, infix(*operand), operator);
            let after_operator = push_spec::<T>(after_operand, operator);
            assert(after_operator.output =~= yard.output + placed(e));
            assert(after_operator.stack =~= yard.stack + waiting(e));
        },
        Expression::Group(open, inner, close) => {
            reveal_with_fuel(push_all, 2);
            let opened = push_spec::<T>(yard, open);
            lemma_yard_after_expression::<T>(opened, *inner);
            let inside = push_all::<T>(opened, infix(*inner));
            assert(binds_as_operand::<T>(*inner, 0)) by {
                lemma_applies_an_operator::<T>(*inner);
            }
            lemma_waiting_yields::<T>(*inner, 0);
            lemma_pop_to_open_run::<T>(inside, yard.stack, open, waiting(*inner));
            lemma_postfix_is_placed_and_waiting(*inner);
            lemma_push_all_push::<T>(opened, infix(*inner), close);
            assert((seq![open] + infix(*inner).push(close)).drop_first() =~= infix(*inner).push(
                close,
            ));
            let closed = push_spec::<T>(inside, close);
            assert(closed.output =~= yard.output + placed(e));
        },
    }
}

/// The shunting yard puts every well-formed expression in postfix order, and
/// finds each of its parentheses matched.
pub proof fn theorem_yard_gives_postfix_order<T: ShuntingYardToken>(e: Expression<T::V>)
    requires
        well_formed::<T>(e),
    ensures
        shunt_spec::<T>(infix(e)) == postfix(e),
        !has_unmatched_close::<T>(infix(e)),
{
    let yard = empty_yard::<T::V>();
    lemma_yard_after_expression::<T>(yard, e);
    lemma_postfix_is_placed_and_waiting(e);
}

} // verus!
