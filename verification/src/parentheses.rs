//! Parentheses and their partners, and the proof that an expression has a
//! value only where each parenthesis has one.
use crate::calculator::{calculate_tokens_spec, evaluate_from, step_spec, FromStrValue};
use crate::math::Math;
use crate::shunting_yard::{
    empty_yard, has_unmatched_close, holds_no_operand, move_top, pop_operators, pop_to_open,
    push_all, push_spec, separator_is_operator, shunt_spec, theorem_push_holds_no_operand,
    yields_to, ShuntType, ShuntingYardToken, YardView,
};
use crate::tokenizer::{Token, TokenView};
use vstd::prelude::*;

verus! {

/// How deep in parentheses a place in a sequence of tokens is, and whether a
/// closing parenthesis came before it that had no open one to close.
pub ghost struct Nesting {
    pub open: nat,
    pub stray_close: bool,
}

/// The nesting after the token `token`.
pub open spec fn nest<T: ShuntingYardToken>(nesting: Nesting, token: T::V) -> Nesting {
    match T::shunt_type_spec(token) {
        ShuntType::OpenBrace => Nesting {
            open: nesting.open + 1,
            stray_close: nesting.stray_close,
        },
        ShuntType::CloseBrace => if nesting.open > 0 {
            Nesting { open: (nesting.open - 1) as nat, stray_close: nesting.stray_close }
        } else {
            Nesting { open: 0, stray_close: true }
        },
        _ => nesting,
    }
}

/// The nesting after the tokens `tokens`.
pub open spec fn nest_all<T: ShuntingYardToken>(nesting: Nesting, tokens: Seq<T::V>) -> Nesting
    decreases tokens.len(),
{
    if tokens.len() == 0 {
        nesting
    } else {
        nest_all::<T>(nest::<T>(nesting, tokens[0]), tokens.drop_first())
    }
}

/// Whether each parenthesis of `tokens` has its partner: every closing one
/// an open one before it, and every open one a closing one after it.
pub open spec fn balanced<T: ShuntingYardToken>(tokens: Seq<T::V>) -> bool {
    nest_all::<T>(Nesting { open: 0, stray_close: false }, tokens) == (Nesting {
        open: 0,
        stray_close: false,
    })
}

/// How many open parentheses wait in `stack`.
pub open spec fn count_open<T: ShuntingYardToken>(stack: Seq<T::V>) -> nat
    decreases stack.len(),
{
    if stack.len() == 0 {
        0
    } else {
        count_open::<T>(stack.drop_last()) + if T::shunt_type_spec(stack.last()) is OpenBrace {
            1nat
        } else {
            0nat
        }
    }
}

/// Whether no token of `tokens` is a parenthesis.
pub open spec fn holds_no_parenthesis<T: ShuntingYardToken>(tokens: Seq<T::V>) -> bool {
    forall|i: int|
        0 <= i < tokens.len() ==> T::shunt_type_spec(#[trigger] tokens[i]) is Operand
            || T::shunt_type_spec(tokens[i]) is Operator
}

/// Whether the yard `yard` stands as the nesting `nesting` says: as many open
/// parentheses wait as are open, none is in the output, and the yard has
/// seen a closing parenthesis without partner if there was one.
pub open spec fn agrees<T: ShuntingYardToken>(yard: YardView<T::V>, nesting: Nesting) -> bool {
    &&& count_open::<T>(yard.stack) == nesting.open
    &&& yard.unmatched_close == nesting.stray_close
    &&& holds_no_parenthesis::<T>(yard.output)
    &&& holds_no_operand::<T>(yard.stack)
}

/// A token that joins what waits is one more open parenthesis, or none.
proof fn lemma_count_open_push<T: ShuntingYardToken>(stack: Seq<T::V>, token: T::V)
    ensures
        count_open::<T>(stack.push(token)) == count_open::<T>(stack) + if T::shunt_type_spec(
            token,
        ) is OpenBrace {
            1nat
        } else {
            0nat
        },
{
    assert(stack.push(token).drop_last() =~= stack);
}

/// The operators that leave for an operator change no nesting.
proof fn lemma_pop_operators_agrees<T: ShuntingYardToken>(
    yard: YardView<T::V>,
    nesting: Nesting,
    precedence: u8,
)
    requires
        agrees::<T>(yard, nesting),
    ensures
        agrees::<T>(pop_operators::<T>(yard, precedence), nesting),
    decreases yard.stack.len(),
{
    if yard.stack.len() > 0 && yields_to::<T>(yard.stack.last(), precedence) {
        let next = move_top(yard);
        assert(holds_no_operand::<T>(next.stack));
        assert(holds_no_parenthesis::<T>(next.output));
        lemma_pop_operators_agrees::<T>(next, nesting, precedence);
    }
}

/// A closing parenthesis closes the latest open one, or is without partner.
proof fn lemma_pop_to_open_agrees<T: ShuntingYardToken>(yard: YardView<T::V>, nesting: Nesting)
    requires
        agrees::<T>(yard, nesting),
    ensures
        agrees::<T>(
            pop_to_open::<T>(yard),
            if nesting.open > 0 {
                Nesting { open: (nesting.open - 1) as nat, stray_close: nesting.stray_close }
            } else {
                Nesting { open: 0, stray_close: true }
            },
        ),
    decreases yard.stack.len(),
{
    if yard.stack.len() > 0 {
        assert(holds_no_operand::<T>(yard.stack.drop_last()));
        if !(T::shunt_type_spec(yard.stack.last()) is OpenBrace) {
            let next = move_top(yard);
            assert(holds_no_parenthesis::<T>(next.output));
            lemma_pop_to_open_agrees::<T>(next, nesting);
        }
    }
}

/// The yard and the nesting agree after one more token.
proof fn lemma_push_agrees<T: ShuntingYardToken>(
    yard: YardView<T::V>,
    nesting: Nesting,
    token: T::V,
)
    requires
        separator_is_operator::<T>(),
        agrees::<T>(yard, nesting),
    ensures
        agrees::<T>(push_spec::<T>(yard, token), nest::<T>(nesting, token)),
{
    let next = push_spec::<T>(yard, token);
    match T::shunt_type_spec(token) {
        ShuntType::Operand => {
            if yard.after_operand && T::operand_separator_spec() is Some {
                lemma_count_open_push::<T>(yard.stack, T::operand_separator_spec()->0);
            }
            assert(holds_no_parenthesis::<T>(next.output));
        },
        ShuntType::Operator { associativity, precedence } => {
            lemma_pop_operators_agrees::<T>(yard, nesting, precedence);
            let popped = pop_operators::<T>(yard, precedence);
            lemma_count_open_push::<T>(popped.stack, token);
            theorem_push_holds_no_operand::<T>(yard, token);
        },
        ShuntType::OpenBrace => {
            lemma_count_open_push::<T>(yard.stack, token);
        },
        ShuntType::CloseBrace => {
            lemma_pop_to_open_agrees::<T>(yard, nesting);
        },
    }
}

/// The yard and the nesting agree after any tokens.
proof fn lemma_push_all_agrees<T: ShuntingYardToken>(
    yard: YardView<T::V>,
    nesting: Nesting,
    tokens: Seq<T::V>,
)
    requires
        separator_is_operator::<T>(),
        agrees::<T>(yard, nesting),
    ensures
        agrees::<T>(push_all::<T>(yard, tokens), nest_all::<T>(nesting, tokens)),
    decreases tokens.len(),
{
    if tokens.len() > 0 {
        lemma_push_agrees::<T>(yard, nesting, tokens[0]);
        lemma_push_all_agrees::<T>(
            push_spec::<T>(yard, tokens[0]),
            nest::<T>(nesting, tokens[0]),
            tokens.drop_first(),
        );
    }
}

/// Where open parentheses wait, one of them is among what waits.
proof fn lemma_count_open_witness<T: ShuntingYardToken>(stack: Seq<T::V>) -> (i: int)
    requires
        count_open::<T>(stack) > 0,
    ensures
        0 <= i < stack.len(),
        T::shunt_type_spec(stack[i]) is OpenBrace,
    decreases stack.len(),
{
    if T::shunt_type_spec(stack.last()) is OpenBrace {
        stack.len() - 1
    } else {
        lemma_count_open_witness::<T>(stack.drop_last())
    }
}

/// Where no open parenthesis waits, none is among what waits.
proof fn lemma_count_open_none<T: ShuntingYardToken>(stack: Seq<T::V>)
    requires
        count_open::<T>(stack) == 0,
        holds_no_operand::<T>(stack),
    ensures
        holds_no_parenthesis::<T>(stack),
    decreases stack.len(),
{
    if stack.len() > 0 {
        assert(holds_no_operand::<T>(stack.drop_last()));
        lemma_count_open_none::<T>(stack.drop_last());
        assert forall|i: int| 0 <= i < stack.len() implies T::shunt_type_spec(
            #[trigger] stack[i],
        ) is Operand || T::shunt_type_spec(stack[i]) is Operator by {
            if i < stack.len() - 1 {
                assert(stack[i] == stack.drop_last()[i]);
            }
        }
    }
}

/// The yard finds every parenthesis of a balanced sequence matched, and puts
/// none of them in the postfix order: what it hands out are operands and
/// operators.
pub proof fn theorem_balanced_leaves_no_parenthesis<T: ShuntingYardToken>(tokens: Seq<T::V>)
    requires
        separator_is_operator::<T>(),
        balanced::<T>(tokens),
    ensures
        !has_unmatched_close::<T>(tokens),
        holds_no_parenthesis::<T>(shunt_spec::<T>(tokens)),
{
    let start = Nesting { open: 0, stray_close: false };
    lemma_push_all_agrees::<T>(empty_yard(), start, tokens);
    let yard = push_all::<T>(empty_yard(), tokens);
    lemma_count_open_none::<T>(yard.stack);
}

/// The stack machine fails on the first parenthesis at the latest.
proof fn lemma_value_means_no_parenthesis<D: FromStrValue + Math>(
    stack: Seq<D>,
    tokens: Seq<TokenView>,
)
    requires
        evaluate_from(stack, tokens) is Ok,
    ensures
        holds_no_parenthesis::<Token>(tokens),
    decreases tokens.len(),
{
    if tokens.len() > 0 {
        let next = step_spec(stack, tokens[0])->Ok_0;
        lemma_value_means_no_parenthesis::<D>(next, tokens.drop_first());
        assert forall|i: int| 0 <= i < tokens.len() implies <Token as ShuntingYardToken>::shunt_type_spec(
            #[trigger] tokens[i],
        ) is Operand || <Token as ShuntingYardToken>::shunt_type_spec(tokens[i]) is Operator by {
            if i > 0 {
                assert(tokens[i] == tokens.drop_first()[i - 1]);
            }
        }
    }
}

/// An expression has a value only where each of its parentheses has its
/// partner, in every domain.
pub proof fn theorem_value_means_balanced<D: FromStrValue + Math>(tokens: Seq<TokenView>)
    requires
        calculate_tokens_spec::<D>(tokens) is Ok,
    ensures
        balanced::<Token>(tokens),
{
    let start = Nesting { open: 0, stray_close: false };
    lemma_push_all_agrees::<Token>(empty_yard(), start, tokens);
    let yard = push_all::<Token>(empty_yard(), tokens);
    let output = shunt_spec::<Token>(tokens);
    lemma_value_means_no_parenthesis::<D>(Seq::empty(), output);
    assert(count_open::<Token>(yard.stack) == 0) by {
        if count_open::<Token>(yard.stack) > 0 {
            // An open parenthesis that waits at the end is handed out.
            let i = lemma_count_open_witness::<Token>(yard.stack);
            let j = yard.output.len() + (yard.stack.len() - 1 - i);
            assert(output[j] == yard.stack[i]);
        }
    }
}

} // verus!
