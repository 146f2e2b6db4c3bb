//! What holds of the stages together.
use crate::calculator::{
    apply_spec, calculate_spec, calculate_tokens_spec, evaluate_from, operand_count_spec,
    step_spec, CalcErrorView, FromStrValue,
};
use crate::expression::{
    infix, postfix, theorem_yard_gives_postfix_order, well_formed, Expression,
};
use crate::legibility::{legible, plain, text_of, theorem_tokens_are_read_back};
use crate::math::Math;
use crate::shunting_yard::{
    has_unmatched_close, pop_operators, pop_to_open, push_all, shunt_spec,
};
use crate::tokenizer::{push_spec, token_shunt_type, tokenize_spec, Token, TokenView};
use vstd::prelude::*;

verus! {

/// The precedence of an operator token.
pub open spec fn precedence(token: TokenView) -> u8 {
    token_shunt_type(token)->precedence
}

/// Parentheses around the right operand of an operator change nothing where
/// the operator inside them binds tighter: both orders give `a b c inner
/// outer`.
pub proof fn theorem_parentheses_around_tighter_right_operand(
    a: TokenView,
    outer: TokenView,
    b: TokenView,
    inner: TokenView,
    c: TokenView,
)
    requires
        a is T,
        b is T,
        c is T,
        token_shunt_type(outer) is Operator,
        token_shunt_type(inner) is Operator,
        precedence(inner) > precedence(outer),
    ensures
        shunt_spec::<Token>(
            seq![a, outer, TokenView::OpenBrace, b, inner, c, TokenView::CloseBrace],
        ) == seq![a, b, c, inner, outer],
        shunt_spec::<Token>(seq![a, outer, b, inner, c]) == seq![a, b, c, inner, outer],
        !has_unmatched_close::<Token>(
            seq![a, outer, TokenView::OpenBrace, b, inner, c, TokenView::CloseBrace],
        ),
        !has_unmatched_close::<Token>(seq![a, outer, b, inner, c]),
{
    reveal_with_fuel(push_all, 8);
    reveal_with_fuel(pop_operators, 3);
    reveal_with_fuel(pop_to_open, 3);
}

/// Parentheses around the left operand of an operator change nothing where
/// the operator inside them binds as tight or tighter: both orders give
/// `a b inner c outer`.
pub proof fn theorem_parentheses_around_left_operand(
    a: TokenView,
    inner: TokenView,
    b: TokenView,
    outer: TokenView,
    c: TokenView,
)
    requires
        a is T,
        b is T,
        c is T,
        token_shunt_type(outer) is Operator,
        token_shunt_type(inner) is Operator,
        precedence(inner) >= precedence(outer),
    ensures
        shunt_spec::<Token>(
            seq![TokenView::OpenBrace, a, inner, b, TokenView::CloseBrace, outer, c],
        ) == seq![a, b, inner, c, outer],
        shunt_spec::<Token>(seq![a, inner, b, outer, c]) == seq![a, b, inner, c, outer],
        !has_unmatched_close::<Token>(
            seq![TokenView::OpenBrace, a, inner, b, TokenView::CloseBrace, outer, c],
        ),
        !has_unmatched_close::<Token>(seq![a, inner, b, outer, c]),
{
    reveal_with_fuel(push_all, 8);
    reveal_with_fuel(pop_operators, 3);
    reveal_with_fuel(pop_to_open, 3);
}

/// Power binds tighter than multiplication, in every domain: `3*(2^4)` has
/// the value of `3*2^4`, and `(2^4)*2` that of `2^4*2`, or the same error.
pub proof fn theorem_power_binds_tighter_than_multiplication<T: FromStrValue + Math>()
    ensures
        calculate_spec::<T>("3*(2^4)"@) == calculate_spec::<T>("3*2^4"@),
        calculate_spec::<T>("(2^4)*2"@) == calculate_spec::<T>("2^4*2"@),
{
    reveal_strlit("3*(2^4)");
    reveal_strlit("3*2^4");
    reveal_strlit("(2^4)*2");
    reveal_strlit("2^4*2");
    reveal_with_fuel(push_spec, 8);
    let two = TokenView::T(seq!['2']);
    let three = TokenView::T(seq!['3']);
    let four = TokenView::T(seq!['4']);
    assert(tokenize_spec("3*(2^4)"@) =~= seq![
        three,
        TokenView::Multiply,
        TokenView::OpenBrace,
        two,
        TokenView::Power,
        four,
        TokenView::CloseBrace,
    ]);
    assert(tokenize_spec("3*2^4"@) =~= seq![
        three,
        TokenView::Multiply,
        two,
        TokenView::Power,
        four,
    ]);
    assert(tokenize_spec("(2^4)*2"@) =~= seq![
        TokenView::OpenBrace,
        two,
        TokenView::Power,
        four,
        TokenView::CloseBrace,
        TokenView::Multiply,
        two,
    ]);
    assert(tokenize_spec("2^4*2"@) =~= seq![
        two,
        TokenView::Power,
        four,
        TokenView::Multiply,
        two,
    ]);
    theorem_parentheses_around_tighter_right_operand(
        three,
        TokenView::Multiply,
        two,
        TokenView::Power,
        four,
    );
    theorem_parentheses_around_left_operand(
        two,
        TokenView::Power,
        four,
        TokenView::Multiply,
        two,
    );
}

/// The value of an expression in the domain `D`: that of an operand is read
/// from its text, and an operator is applied to the values of its operands,
/// the left one first. The first failure on the way is the result.
pub open spec fn value<D: FromStrValue + Math>(e: Expression<TokenView>) -> Result<
    D,
    CalcErrorView,
>
    decreases e,
{
    match e {
        Expression::Operand(token) => match token {
            TokenView::T(lexeme) => match D::from_str_spec(lexeme) {
                Some(value) => Ok(value),
                None => Err(CalcErrorView::ParseError(lexeme)),
            },
            _ => Err(CalcErrorView::MalformedExpression),
        },
        Expression::Binary(left, operator, right) => match value::<D>(*left) {
            Ok(a) => match value::<D>(*right) {
                Ok(b) => match apply_spec(operator, a, b) {
                    Some(value) => Ok(value),
                    None => Err(CalcErrorView::UnsupportedOperation),
                },
                Err(error) => Err(error),
            },
            Err(error) => Err(error),
        },
        Expression::Postfix(operand, operator) => match value::<D>(*operand) {
            Ok(a) => match apply_spec(operator, a, a) {
                Some(value) => Ok(value),
                None => Err(CalcErrorView::UnsupportedOperation),
            },
            Err(error) => Err(error),
        },
        Expression::Group(open, inner, close) => value::<D>(*inner),
    }
}

/// Whether each operator of `e` has as many operands as it takes.
pub open spec fn proper(e: Expression<TokenView>) -> bool
    decreases e,
{
    match e {
        Expression::Operand(token) => true,
        Expression::Binary(left, operator, right) => operand_count_spec(operator) == 2 && proper(
            *left,
        ) && proper(*right),
        Expression::Postfix(operand, operator) => operand_count_spec(operator) == 1 && proper(
            *operand,
        ),
        Expression::Group(open, inner, close) => proper(*inner),
    }
}

/// Reducing by one sequence of tokens after another is reducing by the two
/// in a row.
pub proof fn lemma_evaluate_append<D: FromStrValue + Math>(
    stack: Seq<D>,
    first: Seq<TokenView>,
    second: Seq<TokenView>,
)
    ensures
        evaluate_from(stack, first + second) == match evaluate_from(stack, first) {
            Ok(next) => evaluate_from(next, second),
            Err(error) => Err(error),
        },
    decreases first.len(),
{
    if first.len() > 0 {
        assert((first + second).drop_first() =~= first.drop_first() + second);
        match step_spec(stack, first[0]) {
            Ok(next) => {
                lemma_evaluate_append(next, first.drop_first(), second);
            },
            Err(error) => {},
        }
    }
}

/// The stack machine gives the postfix order of an expression its value:
/// the value joins the stack, or the first failure is the result.
pub proof fn theorem_postfix_order_has_the_value<D: FromStrValue + Math>(
    stack: Seq<D>,
    e: Expression<TokenView>,
)
    requires
        well_formed::<Token>(e),
        proper(e),
    ensures
        evaluate_from(stack, postfix(e)) == match value::<D>(e) {
            Ok(v) => Ok::<Seq<D>, CalcErrorView>(stack.push(v)),
            Err(error) => Err(error),
        },
    decreases e,
{
    reveal_with_fuel(evaluate_from, 2);
    match e {
        Expression::Operand(token) => {},
        Expression::Binary(left, operator, right) => {
            theorem_postfix_order_has_the_value::<D>(stack, *left);
            assert(postfix(e) =~= postfix(*left) + (postfix(*right) + seq![operator]));
            lemma_evaluate_append::<D>(stack, postfix(*left), postfix(*right) + seq![operator]);
            match value::<D>(*left) {
                Ok(a) => {
                    let with_left = stack.push(a);
                    theorem_postfix_order_has_the_value::<D>(with_left, *right);
                    lemma_evaluate_append::<D>(with_left, postfix(*right), seq![operator]);
                    match value::<D>(*right) {
                        Ok(b) => {
                            let with_both = with_left.push(b);
                            assert(with_both.take(with_both.len() - 2) =~= stack);
                        },
                        Err(error) => {},
                    }
                },
                Err(error) => {},
            }
        },
        Expression::Postfix(operand, operator) => {
            theorem_postfix_order_has_the_value::<D>(stack, *operand);
            assert(postfix(e) =~= postfix(*operand) + seq![operator]);
            lemma_evaluate_append::<D>(stack, postfix(*operand), seq![operator]);
            match value::<D>(*operand) {
                Ok(a) => {
                    let with_operand = stack.push(a);
                    assert(with_operand.take(with_operand.len() - 1) =~= stack);
                },
                Err(error) => {},
            }
        },
        Expression::Group(open, inner, close) => {
            theorem_postfix_order_has_the_value::<D>(stack, *inner);
        },
    }
}

/// The tokens of a well-formed expression have its value, in every domain:
/// operators are applied by precedence, those of one precedence from the
/// left, and what stands in parentheses first.
pub proof fn theorem_tokens_have_the_value<D: FromStrValue + Math>(e: Expression<TokenView>)
    requires
        well_formed::<Token>(e),
        proper(e),
    ensures
        calculate_tokens_spec::<D>(infix(e)) == value::<D>(e),
{
    theorem_yard_gives_postfix_order::<Token>(e);
    theorem_postfix_order_has_the_value::<D>(Seq::empty(), e);
    match value::<D>(e) {
        Ok(v) => {},
        Err(error) => {},
    }
}

/// Whether each operand of `e` has a plain text.
pub open spec fn plain_operands(e: Expression<TokenView>) -> bool
    decreases e,
{
    match e {
        Expression::Operand(token) => token matches TokenView::T(lexeme) ==> plain(lexeme),
        Expression::Binary(left, operator, right) => plain_operands(*left) && plain_operands(
            *right,
        ),
        Expression::Postfix(operand, operator) => plain_operands(*operand),
        Expression::Group(open, inner, close) => plain_operands(*inner),
    }
}

/// Two legible sequences make one, where the first does not end with an
/// operand or the second does not begin with one.
proof fn lemma_legible_append(first: Seq<TokenView>, second: Seq<TokenView>)
    requires
        legible(first),
        legible(second),
        first.len() > 0 && second.len() > 0 ==> !(first.last() is T) || !(second[0] is T),
    ensures
        legible(first + second),
{
    let both = first + second;
    assert forall|i: int| 0 <= i < both.len() - 1 implies (#[trigger] both[i] is T ==> !(both[i
        + 1] is T)) by {}
}

/// The tokens of a well-formed expression with plain operands are legible:
/// no operand follows another.
proof fn lemma_infix_is_legible(e: Expression<TokenView>)
    requires
        well_formed::<Token>(e),
        plain_operands(e),
    ensures
        legible(infix(e)),
        infix(e).len() > 0,
    decreases e,
{
    match e {
        Expression::Operand(token) => {},
        Expression::Binary(left, operator, right) => {
            lemma_infix_is_legible(*left);
            lemma_infix_is_legible(*right);
            lemma_legible_append(infix(*left), seq![operator]);
            lemma_legible_append(infix(*left).push(operator), infix(*right));
        },
        Expression::Postfix(operand, operator) => {
            lemma_infix_is_legible(*operand);
            lemma_legible_append(infix(*operand), seq![operator]);
        },
        Expression::Group(open, inner, close) => {
            lemma_infix_is_legible(*inner);
            lemma_legible_append(infix(*inner), seq![close]);
            lemma_legible_append(seq![open], infix(*inner).push(close));
        },
    }
}

/// A well-formed expression, written as text, has its value in every domain:
/// the tokenizer reads its tokens back, the yard puts them in postfix order,
/// and the stack machine applies each operator to the values of its
/// operands.
pub proof fn theorem_text_has_the_value<D: FromStrValue + Math>(e: Expression<TokenView>)
    requires
        well_formed::<Token>(e),
        proper(e),
        plain_operands(e),
    ensures
        calculate_spec::<D>(text_of(infix(e))) == value::<D>(e),
{
    lemma_infix_is_legible(e);
    theorem_tokens_are_read_back(infix(e));
    theorem_tokens_have_the_value::<D>(e);
}

} // verus!
