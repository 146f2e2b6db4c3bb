//! The stack evaluator: it reduces tokens in postfix order to one value of a
//! numeric domain.
use crate::math::{checked_i32, digit_char, fits_i32, int_text, nat_text, Math};
use crate::shunting_yard::{has_unmatched_close, shunt_spec, Shunt};
use crate::source::{Characters, Source};
use crate::text::chars_of;
use crate::tokenizer::{tokenize_spec, Token, TokenView, Tokenize};
use std::collections::VecDeque;
use vstd::prelude::*;

verus! {

/// The operand that an operator did not find.
#[derive(Debug, Clone, Copy, PartialEq, Eq, Structural)]
pub enum Side {
    Left,
    Right,
}

/// Why an expression has no value.
#[derive(Debug, Clone, PartialEq, Eq)]
pub enum CalcError {
    /// The text of an operand is no value of the domain.
    ParseError(String),
    /// An operator came with too few values before it.
    StackUnderflow(Side),
    /// The domain has no result for an operation.
    UnsupportedOperation,
    /// A parenthesis has no partner.
    UnbalancedParentheses,
    /// More than one value is left at the end.
    MalformedExpression,
    /// No value is left at the end.
    EmptyExpression,
}

/// What a `CalcError` is to the contracts.
pub ghost enum CalcErrorView {
    ParseError(Seq<char>),
    StackUnderflow(Side),
    UnsupportedOperation,
    UnbalancedParentheses,
    MalformedExpression,
    EmptyExpression,
}

impl View for CalcError {
    type V = CalcErrorView;

    open spec fn view(&self) -> CalcErrorView {
        match self {
            CalcError::ParseError(lexeme) => CalcErrorView::ParseError(lexeme@),
            CalcError::StackUnderflow(side) => CalcErrorView::StackUnderflow(*side),
            CalcError::UnsupportedOperation => CalcErrorView::UnsupportedOperation,
            CalcError::UnbalancedParentheses => CalcErrorView::UnbalancedParentheses,
            CalcError::MalformedExpression => CalcErrorView::MalformedExpression,
            CalcError::EmptyExpression => CalcErrorView::EmptyExpression,
        }
    }
}

/// Whether the result `r` is what the contracts name `expected`: the same
/// value, or an error with the same view.
pub open spec fn is_result<A>(r: Result<A, CalcError>, expected: Result<A, CalcErrorView>) -> bool {
    match expected {
        Ok(value) => r == Ok::<A, CalcError>(value),
        Err(error) => r is Err && r->Err_0@ == error,
    }
}

/// The words in which an error is reported.
pub open spec fn message_spec(error: CalcErrorView) -> Seq<char> {
    match error {
        CalcErrorView::ParseError(lexeme) => "Cannot parse \""@ + lexeme + "\""@,
        CalcErrorView::StackUnderflow(Side::Left) => "No lhs"@,
        CalcErrorView::StackUnderflow(Side::Right) => "No rhs"@,
        CalcErrorView::UnsupportedOperation => "Unsupported operation"@,
        CalcErrorView::UnbalancedParentheses => "Unbalanced parentheses"@,
        CalcErrorView::MalformedExpression => "Malformed expression"@,
        CalcErrorView::EmptyExpression => "Empty stack"@,
    }
}

impl CalcError {
    /// The words in which the error is reported.
    pub fn message(&self) -> (r: String)
        ensures
            r@ == message_spec(self@),
    {
        match self {
            CalcError::ParseError(lexeme) => {
                let mut r = "Cannot parse \"".to_owned();
                r.append(lexeme.as_str());
                r.append("\"");
                r
            },
            CalcError::StackUnderflow(Side::Left) => "No lhs".to_owned(),
            CalcError::StackUnderflow(Side::Right) => "No rhs".to_owned(),
            CalcError::UnsupportedOperation => "Unsupported operation".to_owned(),
            CalcError::UnbalancedParentheses => "Unbalanced parentheses".to_owned(),
            CalcError::MalformedExpression => "Malformed expression".to_owned(),
            CalcError::EmptyExpression => "Empty stack".to_owned(),
        }
    }
}

/// Whether `c` is one of the ten decimal digits.
pub open spec fn is_digit(c: char) -> bool {
    '0' <= c <= '9'
}

/// Whether every character of `s` is a decimal digit.
pub open spec fn all_digits(s: Seq<char>) -> bool {
    forall|i: int| 0 <= i < s.len() ==> is_digit(#[trigger] s[i])
}

/// The number that the digits `s` write in base ten.
pub open spec fn decimal_value(s: Seq<char>) -> int
    decreases s.len(),
{
    if s.len() == 0 {
        0
    } else {
        10 * decimal_value(s.drop_last()) + (s.last() as int - '0' as int)
    }
}

/// The integer that `s` writes: an optional sign, then one digit or more,
/// with a value that an `i32` holds.
pub open spec fn parse_i32_spec(s: Seq<char>) -> Option<i32> {
    let signed = s.len() > 0 && (s[0] == '-' || s[0] == '+');
    let digits = if signed {
        s.drop_first()
    } else {
        s
    };
    if digits.len() == 0 || !all_digits(digits) {
        None
    } else if s[0] == '-' {
        checked_i32(-decimal_value(digits))
    } else {
        checked_i32(decimal_value(digits))
    }
}

/// A value that can be read from an operand's text.
pub trait FromStrValue: Sized {
    /// The value that `s` stands for, if it stands for one.
    open spec fn from_str_spec(s: Seq<char>) -> Option<Self> {
        arbitrary()
    }

    fn from_str(s: &str) -> (r: Option<Self>)
        ensures
            r == Self::from_str_spec(s@),
    ;
}

/// A text that can be read as an operand of any domain.
pub trait ParseOperand: Sized {
    /// The characters of the text.
    open spec fn text(self) -> Seq<char> {
        arbitrary()
    }

    fn parse_operand<F: FromStrValue>(self) -> (r: Option<F>)
        ensures
            r == F::from_str_spec(self.text()),
    ;
}

impl ParseOperand for &str {
    open spec fn text(self) -> Seq<char> {
        self@
    }

    fn parse_operand<F: FromStrValue>(self) -> (r: Option<F>) {
        F::from_str(self)
    }
}

/// The value of digits is not negative, and no less than that of all but
/// the last.
proof fn lemma_decimal_value_grows(s: Seq<char>)
    requires
        all_digits(s),
    ensures
        decimal_value(s) >= 0,
        s.len() > 0 ==> decimal_value(s) >= decimal_value(s.drop_last()),
    decreases s.len(),
{
    if s.len() > 0 {
        lemma_decimal_value_grows(s.drop_last());
    }
}

/// The value of a prefix of digits is no more than the value of the whole.
proof fn lemma_decimal_value_prefix(s: Seq<char>, n: int)
    requires
        all_digits(s),
        0 <= n <= s.len(),
    ensures
        0 <= decimal_value(s.take(n)) <= decimal_value(s),
    decreases s.len() - n,
{
    if n == s.len() {
        assert(s.take(n) == s);
        lemma_decimal_value_grows(s);
    } else {
        lemma_decimal_value_prefix(s, n + 1);
        assert(s.take(n + 1).drop_last() == s.take(n));
        lemma_decimal_value_grows(s.take(n + 1));
    }
}

impl FromStrValue for i32 {
    open spec fn from_str_spec(s: Seq<char>) -> Option<Self> {
        parse_i32_spec(s)
    }

    fn from_str(s: &str) -> (r: Option<Self>) {
        let chars = chars_of(s);
        let n = chars.len();
        let negative = n > 0 && chars[0] == '-';
        let start: usize = if n > 0 && (chars[0] == '-' || chars[0] == '+') {
            1
        } else {
            0
        };
        if start == n {
            return None;
        }
        let ghost digits = s@.subrange(start as int, n as int);
        assert(digits == if start == 1 {
            s@.drop_first()
        } else {
            s@
        });
        proof {
            if all_digits(digits) {
                lemma_decimal_value_grows(digits);
            }
        }
        // Minus the value read so far: the negative numbers reach one further
        // than the positive ones.
        let mut below: i32 = 0;
        let mut i: usize = start;
        while i < n
            invariant
                start <= i <= n,
                n == chars.len(),
                chars@ == s@,
                digits == s@.subrange(start as int, n as int),
                parse_i32_spec(s@).is_some() ==> all_digits(digits) && fits_i32(
                    -decimal_value(digits),
                ),
                all_digits(digits.take(i - start)),
                below == -decimal_value(digits.take(i - start)),
            decreases n - i,
        {
            let c = chars[i];
            if !(c >= '0' && c <= '9') {
                assert(!is_digit(digits[i - start]));
                return None;
            }
            let digit: i32 = (c as u32 - '0' as u32) as i32;
            let ghost read = digits.take(i - start + 1);
            proof {
                assert(read.drop_last() == digits.take(i - start));
                if all_digits(digits) {
                    lemma_decimal_value_prefix(digits, i - start + 1);
                }
            }
            match below.checked_mul(10) {
                Some(tenfold) => match tenfold.checked_sub(digit) {
                    Some(next) => {
                        below = next;
                    },
                    None => {
                        return None;
                    },
                },
                None => {
                    return None;
                },
            }
            i = i + 1;
        }
        assert(digits.take(n - start) == digits);
        if negative {
            Some(below)
        } else if below == i32::MIN {
            None
        } else {
            Some(-below)
        }
    }
}

/// The character of a digit is a digit with that value.
proof fn lemma_digit_char(d: int)
    requires
        0 <= d < 10,
    ensures
        is_digit(digit_char(d)),
        digit_char(d) as int - '0' as int == d,
{
}

/// The digits of a number have its value, and no sign.
proof fn lemma_nat_text_is_read_back(n: nat)
    ensures
        nat_text(n).len() > 0,
        all_digits(nat_text(n)),
        decimal_value(nat_text(n)) == n,
        nat_text(n)[0] != '-' && nat_text(n)[0] != '+',
    decreases n,
{
    if n >= 10 {
        lemma_nat_text_is_read_back(n / 10);
        let shorter = nat_text(n / 10);
        let digit = digit_char((n % 10) as int);
        lemma_digit_char((n % 10) as int);
        assert(shorter.push(digit).drop_last() =~= shorter);
    } else {
        lemma_digit_char(n as int);
        let text = seq![digit_char(n as int)];
        assert(decimal_value(text) == 10 * decimal_value(text.drop_last()) + n);
    }
}

/// An integer is read back from the text that it is written as.
pub proof fn theorem_integer_is_read_back(v: i32)
    ensures
        parse_i32_spec(int_text(v as int)) == Some(v),
{
    if v < 0 {
        let digits = nat_text((-v) as nat);
        lemma_nat_text_is_read_back((-v) as nat);
        assert((seq!['-'] + digits).drop_first() =~= digits);
    } else {
        lemma_nat_text_is_read_back(v as nat);
    }
}

/// A token after its text is read: a value, or the operator itself.
pub enum ParsedToken<T, S> {
    Operand(T),
    Operator(S),
}

/// How many values an operator takes.
pub open spec fn operand_count_spec(token: TokenView) -> nat {
    match token {
        TokenView::Percent => 1,
        _ => 2,
    }
}

/// Whether a token is an operator: neither an operand nor a parenthesis.
pub open spec fn is_operator(token: TokenView) -> bool {
    !(token is T) && !(token is OpenBrace) && !(token is CloseBrace)
}

/// The result of an operator on its operands. A unary operator has its one
/// operand in `left`.
pub open spec fn apply_spec<T: Math>(token: TokenView, left: T, right: T) -> Option<T> {
    match token {
        TokenView::Plus => left.add_spec(right),
        TokenView::Minus => left.sub_spec(right),
        TokenView::Multiply => left.mul_spec(right),
        TokenView::Divide => left.div_spec(right),
        TokenView::Power => left.pow_spec(right),
        TokenView::Root => left.root_spec(right),
        TokenView::Percent => left.percent_spec(),
        _ => None,
    }
}

/// The operand that an operator misses on a stack that is too short for it.
pub open spec fn missing_side(depth: nat) -> Side {
    if depth == 0 {
        Side::Left
    } else {
        Side::Right
    }
}

/// The stack after an operator or a parenthesis. An operator takes its
/// operands from the end of the stack, the right one last, and leaves its
/// result there. A parenthesis is in no postfix sequence of a balanced
/// expression.
pub open spec fn operator_spec<T: Math>(stack: Seq<T>, token: TokenView) -> Result<
    Seq<T>,
    CalcErrorView,
> {
    let count = operand_count_spec(token);
    if !is_operator(token) {
        Err(CalcErrorView::UnbalancedParentheses)
    } else if stack.len() < count {
        Err(CalcErrorView::StackUnderflow(missing_side(stack.len())))
    } else {
        let below = stack.take(stack.len() - count);
        let left = stack[stack.len() - count];
        let right = stack.last();
        match apply_spec(token, left, right) {
            Some(value) => Ok(below.push(value)),
            None => Err(CalcErrorView::UnsupportedOperation),
        }
    }
}

/// The stack after the token `token` has failed with `error`: an operation
/// that the domain does not support has taken its operands, and any other
/// failure has left the stack as it was.
pub open spec fn after_failure<T>(stack: Seq<T>, token: TokenView, error: CalcErrorView) -> Seq<
    T,
> {
    if error is UnsupportedOperation {
        stack.take(stack.len() - operand_count_spec(token))
    } else {
        stack
    }
}

/// The stack after one token in postfix order.
pub open spec fn step_spec<T: FromStrValue + Math>(stack: Seq<T>, token: TokenView) -> Result<
    Seq<T>,
    CalcErrorView,
> {
    match token {
        TokenView::T(lexeme) => match T::from_str_spec(lexeme) {
            Some(value) => Ok(stack.push(value)),
            None => Err(CalcErrorView::ParseError(lexeme)),
        },
        _ => operator_spec(stack, token),
    }
}

/// The stack after the tokens `tokens` in postfix order, or the first error
/// on the way.
pub open spec fn evaluate_from<T: FromStrValue + Math>(stack: Seq<T>, tokens: Seq<TokenView>)
    -> Result<Seq<T>, CalcErrorView>
    decreases tokens.len(),
{
    if tokens.len() == 0 {
        Ok(stack)
    } else {
        match step_spec(stack, tokens[0]) {
            Ok(next) => evaluate_from(next, tokens.drop_first()),
            Err(error) => Err(error),
        }
    }
}

/// The value that a stack holds at the end: its one value.
pub open spec fn top_spec<T>(stack: Seq<T>) -> Result<T, CalcErrorView> {
    if stack.len() == 0 {
        Err(CalcErrorView::EmptyExpression)
    } else if stack.len() > 1 {
        Err(CalcErrorView::MalformedExpression)
    } else {
        Ok(stack[0])
    }
}

/// The value of the postfix sequence `postfix`.
pub open spec fn evaluate_spec<T: FromStrValue + Math>(postfix: Seq<TokenView>) -> Result<
    T,
    CalcErrorView,
> {
    match evaluate_from::<T>(Seq::empty(), postfix) {
        Ok(stack) => top_spec(stack),
        Err(error) => Err(error),
    }
}

/// The value of the infix sequence `tokens`: it is put in postfix order and
/// reduced. The first error on the way is the result. A closing parenthesis
/// that has no open one before it is an error where there is no earlier one.
pub open spec fn calculate_tokens_spec<T: FromStrValue + Math>(tokens: Seq<TokenView>) -> Result<
    T,
    CalcErrorView,
> {
    match evaluate_from::<T>(Seq::empty(), shunt_spec::<Token>(tokens)) {
        Ok(stack) => if has_unmatched_close::<Token>(tokens) {
            Err(CalcErrorView::UnbalancedParentheses)
        } else {
            top_spec(stack)
        },
        Err(error) => Err(error),
    }
}

/// The value of the expression `expression`: that of its tokens.
pub open spec fn calculate_spec<T: FromStrValue + Math>(expression: Seq<char>) -> Result<
    T,
    CalcErrorView,
> {
    calculate_tokens_spec::<T>(tokenize_spec(expression))
}

/// By how much a token in postfix order makes the stack deeper: an operand
/// by one, an operator by one less its operands.
pub open spec fn depth_change(token: TokenView) -> int {
    if token is T {
        1
    } else {
        1 - operand_count_spec(token)
    }
}

/// By how much the tokens `tokens` make the stack deeper.
pub open spec fn total_depth_change(tokens: Seq<TokenView>) -> int
    decreases tokens.len(),
{
    if tokens.len() == 0 {
        0
    } else {
        depth_change(tokens[0]) + total_depth_change(tokens.drop_first())
    }
}

/// While nothing fails, the stack is as deep as the operands seen are many,
/// less what the operators seen have taken and not given back.
pub proof fn theorem_stack_depth<T: FromStrValue + Math>(stack: Seq<T>, tokens: Seq<TokenView>)
    requires
        evaluate_from(stack, tokens) is Ok,
    ensures
        evaluate_from(stack, tokens)->Ok_0.len() == stack.len() + total_depth_change(tokens),
    decreases tokens.len(),
{
    if tokens.len() > 0 {
        let next = step_spec(stack, tokens[0])->Ok_0;
        theorem_stack_depth(next, tokens.drop_first());
    }
}

/// The values that wait for their operators, the latest last.
pub struct Memory<T> {
    stack: VecDeque<T>,
}

impl<T> View for Memory<T> {
    type V = Seq<T>;

    closed spec fn view(&self) -> Seq<T> {
        self.stack@
    }
}

impl<T> Memory<T> {
    /// A memory without values.
    pub fn new() -> (r: Self)
        ensures
            r@ == Seq::<T>::empty(),
    {
        Self { stack: VecDeque::new() }
    }

    /// Lets the value `t` wait.
    pub fn push(&mut self, t: T)
        ensures
            final(self)@ == old(self)@.push(t),
    {
        self.stack.push_back(t);
    }

    /// Reduces the stack by the operator `t`.
    pub fn push_operator(&mut self, t: Token) -> (r: Result<(), CalcError>) where
        T: FromStrValue + Math,

        requires
            !(t@ is T),
        ensures
            match operator_spec(old(self)@, t@) {
                Ok(stack) => r is Ok && final(self)@ == stack,
                Err(error) => r is Err && r->Err_0@ == error && final(self)@ == after_failure(
                    old(self)@,
                    t@,
                    error,
                ),
            },
    {
        if matches!(t, Token::OpenBrace | Token::CloseBrace) {
            return Err(CalcError::UnbalancedParentheses);
        }
        let n = Self::operand_count(&t);
        let ghost stack = self@;
        let mut top_n = self.pop_n(n)?;
        let value = if n == 1 {
            let left = top_n.pop().unwrap();
            left.percent()
        } else {
            let left = top_n.pop().unwrap();
            let right = top_n.pop().unwrap();
            match t {
                Token::Plus => left.add(right),
                Token::Minus => left.sub(right),
                Token::Multiply => left.mul(right),
                Token::Divide => left.div(right),
                Token::Power => left.pow(right),
                _ => left.root(right),
            }
        };
        match value {
            Some(value) => {
                self.stack.push_back(value);
                Ok(())
            },
            None => Err(CalcError::UnsupportedOperation),
        }
    }

    /// The one value of the stack.
    pub fn top(self) -> (r: Result<T, CalcError>)
        ensures
            is_result(r, top_spec(self@)),
    {
        let mut stack = self.stack;
        if stack.len() > 1 {
            return Err(CalcError::MalformedExpression);
        }
        match stack.pop_back() {
            Some(value) => Ok(value),
            None => Err(CalcError::EmptyExpression),
        }
    }

    /// Takes the last `n` values off the stack, the last first. Where the
    /// stack holds fewer, it stays as it is.
    pub fn pop_n(&mut self, n: u8) -> (r: Result<Vec<T>, CalcError>)
        ensures
            match r {
                Ok(values) => {
                    &&& n <= old(self)@.len()
                    &&& final(self)@ == old(self)@.take(old(self)@.len() - n)
                    &&& values@ == old(self)@.skip(old(self)@.len() - n).reverse()
                },
                Err(error) => {
                    &&& old(self)@.len() < n
                    &&& error@ == CalcErrorView::StackUnderflow(missing_side(old(self)@.len()))
                    &&& final(self)@ == old(self)@
                },
            },
    {
        let depth = self.stack.len();
        if depth < n as usize {
            return Err(
                CalcError::StackUnderflow(
                    if depth == 0 {
                        Side::Left
                    } else {
                        Side::Right
                    },
                ),
            );
        }
        let mut values: Vec<T> = Vec::new();
        let mut taken: u8 = 0;
        while taken < n
            invariant
                taken <= n <= old(self)@.len(),
                self@ == old(self)@.take(old(self)@.len() - taken),
                values@ == old(self)@.skip(old(self)@.len() - taken).reverse(),
            decreases n - taken,
        {
            match self.stack.pop_back() {
                Some(value) => {
                    values.push(value);
                },
                None => {},
            }
            taken = taken + 1;
        }
        Ok(values)
    }

    /// How many values the operator `t` takes.
    pub fn operand_count(t: &Token) -> (r: u8)
        requires
            is_operator(t@),
        ensures
            r == operand_count_spec(t@),
    {
        match t {
            Token::Percent => 1,
            _ => 2,
        }
    }

    /// Reads an operand and lets it wait, or reduces the stack by an
    /// operator.
    pub fn push_token(&mut self, token: Token) -> (r: Result<(), CalcError>) where
        T: FromStrValue + Math,

        ensures
            match step_spec(old(self)@, token@) {
                Ok(stack) => r is Ok && final(self)@ == stack,
                Err(error) => r is Err && r->Err_0@ == error && final(self)@ == after_failure(
                    old(self)@,
                    token@,
                    error,
                ),
            },
    {
        match classify::<T>(token)? {
            ParsedToken::Operand(operand) => {
                self.push(operand);
                Ok(())
            },
            ParsedToken::Operator(o) => self.push_operator(o),
        }
    }
}

/// Reads the text of an operand as a value of the domain; any other token
/// stays as it is.
pub fn classify<T: FromStrValue>(token: Token) -> (r: Result<ParsedToken<T, Token>, CalcError>)
    ensures
        match token@ {
            TokenView::T(lexeme) => match T::from_str_spec(lexeme) {
                Some(value) => r matches Ok(ParsedToken::Operand(operand)) && operand == value,
                None => r is Err && r->Err_0@ == CalcErrorView::ParseError(lexeme),
            },
            _ => r matches Ok(ParsedToken::Operator(operator)) && operator@ == token@,
        },
{
    match token {
        Token::T(v) => {
            match v.as_str().parse_operand::<T>() {
                Some(f) => Ok(ParsedToken::Operand(f)),
                None => Err(CalcError::ParseError(v)),
            }
        },
        _ => Ok(ParsedToken::Operator(token)),
    }
}

/// The value of the tokens of `postfix`, which are in postfix order.
pub fn evaluate<T: FromStrValue + Math, S: Source<Item = Token>>(postfix: S) -> (r: Result<
    T,
    CalcError,
>)
    requires
        postfix.wf(),
    ensures
        is_result(r, evaluate_spec::<T>(postfix.remaining())),
{
    let mut source = postfix;
    let mut memory: Memory<T> = Memory::new();
    loop
        invariant
            source.wf(),
            evaluate_from(memory@, source.remaining()) == evaluate_from::<T>(
                Seq::empty(),
                postfix.remaining(),
            ),
        ensures
            evaluate_from::<T>(Seq::empty(), postfix.remaining()) == Ok::<Seq<T>, CalcErrorView>(
                memory@,
            ),
        decreases source.remaining().len(),
    {
        match source.next() {
            Some(token) => {
                match memory.push_token(token) {
                    Ok(()) => {},
                    Err(error) => {
                        return Err(error);
                    },
                }
            },
            None => {
                break ;
            },
        }
    }
    memory.top()
}

/// The evaluator of expressions.
pub struct Calculator {}

impl Calculator {
    /// The value of `expression` in the domain `T`.
    pub fn calculate<T>(&self, expression: &str) -> (r: Result<T, CalcError>) where
        T: FromStrValue + Math,

        ensures
            is_result(r, calculate_spec::<T>(expression@)),
    {
        let mut postfix = Characters::new(expression).tokenize().shunt();
        let mut memory: Memory<T> = Memory::new();
        let ghost all = shunt_spec::<Token>(tokenize_spec(expression@));
        loop
            invariant
                postfix.wf(),
                all == shunt_spec::<Token>(tokenize_spec(expression@)),
                postfix.unmatched_close() == has_unmatched_close::<Token>(
                    tokenize_spec(expression@),
                ),
                evaluate_from(memory@, postfix.remaining()) == evaluate_from::<T>(
                    Seq::empty(),
                    all,
                ),
            ensures
                postfix.ended(),
                postfix.unmatched_close() == has_unmatched_close::<Token>(
                    tokenize_spec(expression@),
                ),
                evaluate_from::<T>(Seq::empty(), all) == Ok::<Seq<T>, CalcErrorView>(memory@),
            decreases postfix.remaining().len(),
        {
            match postfix.next() {
                Some(token) => {
                    match memory.push_token(token) {
                        Ok(()) => {},
                        Err(error) => {
                            return Err(error);
                        },
                    }
                },
                None => {
                    break ;
                },
            }
        }
        if postfix.saw_unmatched_close() {
            return Err(CalcError::UnbalancedParentheses);
        }
        memory.top()
    }
}

} // verus!
