use calculator::calculator::{
    classify, evaluate, CalcError, Calculator, FromStrValue, Memory, ParseOperand, ParsedToken,
    Side,
};
use calculator::math::{CommonMath, Format, Inv, Percent, Pow, Root};
use calculator::source::Source;
use calculator::tokenizer::Token;

/// The real numbers, as the machine has them.
#[derive(Debug, Clone, Copy, PartialEq, PartialOrd)]
struct Real(f64);

impl CommonMath for Real {
    fn add(self, rhs: Self) -> Option<Self> {
        Some(Real(self.0 + rhs.0))
    }

    fn sub(self, rhs: Self) -> Option<Self> {
        Some(Real(self.0 - rhs.0))
    }

    fn mul(self, rhs: Self) -> Option<Self> {
        Some(Real(self.0 * rhs.0))
    }

    fn div(self, rhs: Self) -> Option<Self> {
        Some(Real(self.0 / rhs.0))
    }
}

impl Pow for Real {
    fn pow(self, rhs: Self) -> Option<Self> {
        Some(Real(self.0.powf(rhs.0)))
    }
}

impl Inv for Real {
    fn inv(self) -> Option<Self> {
        Some(Real(1f64 / self.0))
    }
}

impl Percent for Real {
    fn hundred() -> Self {
        Real(100f64)
    }

    fn percent(self) -> Option<Self> {
        Some(Real(self.0 / 100f64))
    }
}

impl FromStrValue for Real {
    fn from_str(s: &str) -> Option<Self> {
        match s {
            "tau" => Some(Real(std::f64::consts::TAU)),
            "pi" => Some(Real(std::f64::consts::PI)),
            "e" => Some(Real(std::f64::consts::E)),
            _ => s.parse().ok().map(Real),
        }
    }
}

/// Tokens that are handed out in the order in which they were given.
struct Tokens(std::vec::IntoIter<Token>);

impl Tokens {
    fn of(tokens: Vec<Token>) -> Self {
        Tokens(tokens.into_iter())
    }
}

impl Source for Tokens {
    type Item = Token;

    fn next(&mut self) -> Option<Token> {
        self.0.next()
    }
}

fn operand(text: &str) -> Token {
    Token::T(text.to_string())
}

#[test]
fn constant() {
    assert_eq!(Ok(1), Calculator {}.calculate("1"));
}

#[test]
pub fn add() {
    assert_eq!(Ok(3), Calculator {}.calculate("1+2"));
}

#[test]
pub fn subtract() {
    assert_eq!(Ok(2), Calculator {}.calculate("5-3"));
}

#[test]
pub fn calculator_multiply() {
    assert_eq!(Ok(18), Calculator {}.calculate("3*6"));
}

#[test]
pub fn subtract_into_negative() {
    assert_eq!(Ok(-1i32), Calculator {}.calculate("2-3"));
}

#[test]
pub fn integer_divide() {
    assert_eq!(Ok(3), Calculator {}.calculate("7/2"));
}

#[test]
pub fn floating_point_divide() {
    assert_eq!(Ok(Real(3.5)), Calculator {}.calculate("7/2"));
}

#[test]
pub fn unnecessary_brackets() {
    assert_eq!(Ok(7), Calculator {}.calculate("1+(3*2)"));
}

#[test]
pub fn brackets_changing_precedence() {
    assert_eq!(Ok(8), Calculator {}.calculate("(1+3)*2"));
}

#[test]
pub fn two_braces() {
    assert_eq!(Ok(12), Calculator {}.calculate("(1+3)*(5-2)"));
}

#[test]
pub fn calculator_power() {
    assert_eq!(Ok(16), Calculator {}.calculate("2^4"));
}

#[test]
pub fn root() {
    assert_eq!(Ok(Real(4f64)), Calculator {}.calculate("2√16"));
    assert_eq!(Ok(Real(3f64)), Calculator {}.calculate("3√27"));
}

#[test]
pub fn percent() {
    assert_eq!(Ok(Real(0.95)), Calculator {}.calculate("95%"));
}

#[test]
pub fn power_with_right_multiplier() {
    let calculator = Calculator {};
    assert_eq!(
        calculator.calculate::<i32>("(2^4)*2"),
        calculator.calculate("2^4*2")
    )
}

#[test]
pub fn power_with_left_multiplier() {
    let calculator = Calculator {};
    assert_eq!(
        calculator.calculate::<i32>("3*(2^4)"),
        calculator.calculate("3*2^4")
    )
}

#[test]
pub fn power_binds_tighter_in_the_real_domain() {
    let calculator = Calculator {};
    assert_eq!(Ok(Real(48f64)), calculator.calculate("3*(2^4)"));
    assert_eq!(Ok(Real(48f64)), calculator.calculate("3*2^4"));
    assert_eq!(Ok(Real(32f64)), calculator.calculate("(2^4)*2"));
    assert_eq!(Ok(Real(32f64)), calculator.calculate("2^4*2"));
    assert_eq!(Ok(48), calculator.calculate::<i32>("3*2^4"));
    assert_eq!(Ok(32), calculator.calculate::<i32>("2^4*2"));
}

#[test]
pub fn tau() {
    assert_eq!(
        Ok(Real(std::f64::consts::TAU)),
        Calculator {}.calculate("tau")
    )
}

#[test]
pub fn pi() {
    assert_eq!(Ok(Real(std::f64::consts::PI)), Calculator {}.calculate("pi"))
}

#[test]
pub fn e() {
    assert_eq!(Ok(Real(std::f64::consts::E)), Calculator {}.calculate("e"))
}

#[test]
pub fn automatic_multiplication() {
    assert_eq!(Ok(12), Calculator {}.calculate("(3)(4)"));
    assert_eq!(Ok(12), Calculator {}.calculate("(3)4"));
    assert_eq!(Ok(12), Calculator {}.calculate("3(4)"));
    assert_eq!(Ok(24), Calculator {}.calculate("(2)3(4)"));
    assert_eq!(Ok(5), Calculator {}.calculate("(2)3-1"));
}

#[test]
pub fn multiplication_by_constant() {
    // A number and a name with nothing between them are one operand.
    assert_eq!(
        Err(CalcError::ParseError("2pi".to_string())),
        Calculator {}.calculate::<Real>("2pi")
    );
    assert_eq!(
        Ok(Real(std::f64::consts::TAU)),
        Calculator {}.calculate("2(pi)")
    );
    assert_eq!(
        Ok(Real(std::f64::consts::TAU)),
        Calculator {}.calculate("2*pi")
    )
}

#[test]
fn a_literal_of_the_domain_is_one_operand() {
    assert_eq!(Ok(Real(100000f64)), Calculator {}.calculate("1e5"));
    assert_eq!(Ok(Real(0.5)), Calculator {}.calculate(".5"));
    assert_eq!(
        Err(CalcError::ParseError("1 2".to_string())),
        Calculator {}.calculate::<Real>("1 2")
    );
}

#[test]
fn an_operand_is_multiplied_with_the_operand_before_it() {
    let calculator = Calculator {};
    assert_eq!(Ok(7), calculator.calculate::<i32>("1+2(3)"));
    assert_eq!(Ok(18), calculator.calculate::<i32>("(2)3^2"));
    assert_eq!(Ok(4096), calculator.calculate::<i32>("2^3(4)"));
    // The operator that stands for the missing sign waits inside the
    // parentheses, with the operand that it was assumed before.
    assert_eq!(Ok(17), calculator.calculate::<i32>("3(4+5)"));
    assert_eq!(Ok(17), calculator.calculate::<i32>("3((4+5))"));
    assert_eq!(Ok(27), calculator.calculate::<i32>("3*(4+5)"));
}

#[test]
fn missing_right_operand() {
    assert_eq!(
        Err(CalcError::StackUnderflow(Side::Right)),
        Calculator {}.calculate::<i32>("1+")
    );
    assert_eq!(
        Err(CalcError::StackUnderflow(Side::Right)),
        Calculator {}.calculate::<Real>("1+")
    );
}

#[test]
fn missing_left_operand() {
    assert_eq!(
        Err(CalcError::StackUnderflow(Side::Left)),
        Calculator {}.calculate::<i32>("+")
    );
    assert_eq!(
        Err(CalcError::StackUnderflow(Side::Left)),
        Calculator {}.calculate::<i32>("%")
    );
}

#[test]
fn operand_that_is_no_integer() {
    assert_eq!(
        Err(CalcError::ParseError("abc".to_string())),
        Calculator {}.calculate::<i32>("1+abc")
    );
    assert_eq!(
        Err(CalcError::ParseError("2pi".to_string())),
        Calculator {}.calculate::<i32>("2pi")
    );
    assert_eq!(
        Err(CalcError::ParseError("3.5".to_string())),
        Calculator {}.calculate::<i32>("3.5")
    );
}

#[test]
fn integers_have_no_root() {
    assert_eq!(
        Err(CalcError::UnsupportedOperation),
        Calculator {}.calculate::<i32>("2√16")
    );
    assert_eq!(None, 2i32.root(16));
    assert_eq!(None, 2i32.inv());
}

#[test]
fn integers_that_do_not_fit() {
    let calculator = Calculator {};
    assert_eq!(
        Err(CalcError::UnsupportedOperation),
        calculator.calculate::<i32>("2147483647+1")
    );
    assert_eq!(
        Err(CalcError::UnsupportedOperation),
        calculator.calculate::<i32>("65536*65536")
    );
    assert_eq!(
        Err(CalcError::UnsupportedOperation),
        calculator.calculate::<i32>("0-2147483647-2")
    );
    assert_eq!(
        Err(CalcError::UnsupportedOperation),
        calculator.calculate::<i32>("1/0")
    );
    assert_eq!(
        Err(CalcError::UnsupportedOperation),
        calculator.calculate::<i32>("2^31")
    );
    assert_eq!(
        Err(CalcError::UnsupportedOperation),
        calculator.calculate::<i32>("2^(0-1)")
    );
    assert_eq!(Ok(1073741824), calculator.calculate::<i32>("2^30"));
    assert_eq!(
        Err(CalcError::ParseError("2147483648".to_string())),
        calculator.calculate::<i32>("2147483648")
    );
}

#[test]
fn the_first_error_in_postfix_order_is_reported() {
    // In postfix order: 1 + abc +
    assert_eq!(
        Err(CalcError::StackUnderflow(Side::Right)),
        Calculator {}.calculate::<i32>("1++abc")
    );
}

#[test]
fn unmatched_parentheses() {
    let calculator = Calculator {};
    assert_eq!(
        Err(CalcError::UnbalancedParentheses),
        calculator.calculate::<i32>("(1+2")
    );
    assert_eq!(
        Err(CalcError::UnbalancedParentheses),
        calculator.calculate::<i32>("1+2)")
    );
    assert_eq!(
        Err(CalcError::UnbalancedParentheses),
        calculator.calculate::<i32>(")")
    );
    assert_eq!(
        Err(CalcError::UnbalancedParentheses),
        calculator.calculate::<i32>("(")
    );
    assert_eq!(
        Err(CalcError::StackUnderflow(Side::Right)),
        calculator.calculate::<i32>("1+)")
    );
}

#[test]
fn empty_and_leftover() {
    let calculator = Calculator {};
    assert_eq!(
        Err(CalcError::EmptyExpression),
        calculator.calculate::<i32>("")
    );
    assert_eq!(
        Err(CalcError::EmptyExpression),
        calculator.calculate::<i32>("()")
    );
    assert_eq!(
        Err(CalcError::MalformedExpression),
        calculator.calculate::<i32>("50%3")
    );
}

#[test]
fn integer_percent_and_division_round_towards_zero() {
    let calculator = Calculator {};
    assert_eq!(Ok(2), calculator.calculate::<i32>("250%"));
    assert_eq!(Ok(0), calculator.calculate::<i32>("95%"));
    assert_eq!(Ok(-3), calculator.calculate::<i32>("(0-7)/2"));
    assert_eq!(Ok(-3), calculator.calculate::<i32>("7/(0-2)"));
    assert_eq!(Ok(3), calculator.calculate::<i32>("(0-7)/(0-2)"));
    assert_eq!(Some(-2), (-250i32).percent());
    assert_eq!(100, <i32 as Percent>::hundred());
}

#[test]
fn upper_case_x_multiplies() {
    assert_eq!(Ok(18), Calculator {}.calculate::<i32>("3X6"));
    assert_eq!(Ok(18), Calculator {}.calculate::<i32>("3x6"));
}

#[test]
fn same_precedence_groups_to_the_left() {
    assert_eq!(Ok(1), Calculator {}.calculate::<i32>("8/4/2"));
    assert_eq!(Ok(64), Calculator {}.calculate::<i32>("2^3^2"));
    assert_eq!(Ok(2), Calculator {}.calculate::<i32>("9-4-3"));
}

#[test]
fn postfix_is_evaluated_as_given() {
    let postfix = Tokens::of(vec![
        operand("1"),
        operand("2"),
        operand("3"),
        Token::Multiply,
        Token::Plus,
    ]);
    assert_eq!(Ok(7), evaluate::<i32, Tokens>(postfix));
    let postfix = Tokens::of(vec![operand("7"), operand("2"), Token::Minus]);
    assert_eq!(Ok(5), evaluate::<i32, Tokens>(postfix));
    let postfix = Tokens::of(vec![operand("2"), operand("16"), Token::Root]);
    assert_eq!(Ok(Real(4f64)), evaluate::<Real, Tokens>(postfix));
    let postfix = Tokens::of(vec![operand("1"), Token::OpenBrace]);
    assert_eq!(
        Err(CalcError::UnbalancedParentheses),
        evaluate::<i32, Tokens>(postfix)
    );
    let postfix = Tokens::of(vec![operand("1"), operand("2")]);
    assert_eq!(
        Err(CalcError::MalformedExpression),
        evaluate::<i32, Tokens>(postfix)
    );
    assert_eq!(
        Err(CalcError::EmptyExpression),
        evaluate::<i32, Tokens>(Tokens::of(vec![]))
    );
}

#[test]
fn memory_is_a_stack() {
    let mut memory: Memory<i32> = Memory::new();
    memory.push(1);
    memory.push(2);
    memory.push(3);
    assert_eq!(Ok(vec![3, 2]), memory.pop_n(2));
    assert_eq!(
        Err(CalcError::StackUnderflow(Side::Right)),
        memory.pop_n(2)
    );
    assert_eq!(Ok(vec![1]), memory.pop_n(1));
    assert_eq!(Err(CalcError::StackUnderflow(Side::Left)), memory.pop_n(1));
    assert_eq!(Ok(Vec::<i32>::new()), memory.pop_n(0));
    assert_eq!(Err(CalcError::EmptyExpression), memory.top());
}

#[test]
fn memory_reduces_by_operators() {
    let mut memory: Memory<i32> = Memory::new();
    memory.push(7);
    memory.push(2);
    assert_eq!(Ok(()), memory.push_operator(Token::Minus));
    assert_eq!(Ok(()), memory.push_token(operand("10")));
    assert_eq!(Ok(()), memory.push_token(Token::Power));
    assert_eq!(Ok(()), memory.push_token(Token::Percent));
    assert_eq!(Ok(97656), memory.top());
    assert_eq!(1, Memory::<i32>::operand_count(&Token::Percent));
    assert_eq!(2, Memory::<i32>::operand_count(&Token::Root));
    assert_eq!(2, Memory::<i32>::operand_count(&Token::Plus));
}

#[test]
fn tokens_are_classified() {
    assert!(matches!(
        classify::<i32>(operand("12")),
        Ok(ParsedToken::Operand(12))
    ));
    assert!(matches!(
        classify::<i32>(Token::Divide),
        Ok(ParsedToken::Operator(Token::Divide))
    ));
    assert!(matches!(
        classify::<i32>(operand("1.5")),
        Err(CalcError::ParseError(_))
    ));
}

#[test]
fn integers_are_read_as_the_standard_library_reads_them() {
    for text in [
        "0", "7", "007", "+5", "-5", "-0", "2147483647", "-2147483648", "2147483648",
        "-2147483649", "", "-", "+", "12a", "a12", "1 2", " 1", "1_000", "--1", "٣",
        "99999999999999999999",
    ] {
        assert_eq!(text.parse::<i32>().ok(), <i32 as FromStrValue>::from_str(text));
        assert_eq!(text.parse::<i32>().ok(), text.parse_operand::<i32>());
    }
}

#[test]
fn integer_powers() {
    assert_eq!(Some(1), Pow::pow(0i32, 0));
    assert_eq!(Some(0), Pow::pow(0i32, 5));
    assert_eq!(Some(1), Pow::pow(1i32, 2147483647));
    assert_eq!(Some(-1), Pow::pow(-1i32, 2147483647));
    assert_eq!(Some(1), Pow::pow(-1i32, 2147483646));
    assert_eq!(Some(i32::MIN), Pow::pow(-2i32, 31));
    assert_eq!(None, Pow::pow(2i32, 31));
    assert_eq!(None, Pow::pow(-2i32, 32));
    assert_eq!(Some(-27), Pow::pow(-3i32, 3));
    assert_eq!(None, Pow::pow(3i32, -1));
    assert_eq!(Some(1), Pow::pow(46341i32, 0));
    assert_eq!(None, Pow::pow(46341i32, 2));
    assert_eq!(Some(2147395600), Pow::pow(46340i32, 2));
}

#[test]
fn integer_arithmetic_is_checked() {
    assert_eq!(Some(i32::MIN), i32::MIN.add(0));
    assert_eq!(None, i32::MIN.sub(1));
    assert_eq!(None, i32::MIN.mul(-1));
    assert_eq!(None, i32::MIN.div(-1));
    assert_eq!(None, 5i32.div(0));
    assert_eq!(Some(-2), (-5i32).div(2));
}

#[test]
fn integers_are_written_in_base_ten() {
    for v in [0, 1, 9, 10, 11, 99, 100, 1234, -1, -10, i32::MAX, i32::MIN] {
        assert_eq!(v.to_string(), v.format());
    }
}

#[test]
fn errors_are_reported_in_words() {
    assert_eq!(
        "Cannot parse \"abc\"",
        CalcError::ParseError("abc".to_string()).message()
    );
    assert_eq!("No lhs", CalcError::StackUnderflow(Side::Left).message());
    assert_eq!("No rhs", CalcError::StackUnderflow(Side::Right).message());
    assert_eq!("Empty stack", CalcError::EmptyExpression.message());
    assert_eq!(
        "Unsupported operation",
        CalcError::UnsupportedOperation.message()
    );
    assert_eq!(
        "Unbalanced parentheses",
        CalcError::UnbalancedParentheses.message()
    );
    assert_eq!(
        "Malformed expression",
        CalcError::MalformedExpression.message()
    );
}

#[test]
fn operators_are_applied_by_precedence_and_from_the_left() {
    let calculator = Calculator {};
    // ((1+2)*3-4/2)^2
    assert_eq!(Ok(49), calculator.calculate::<i32>("((1+2)*3-4/2)^2"));
    // 1+2*3^2-4: the power first, then the product, then from the left.
    assert_eq!(Ok(15), calculator.calculate::<i32>("1+2*3^2-4"));
    assert_eq!(Ok(-4), calculator.calculate::<i32>("1-2-3"));
    assert_eq!(Ok(2), calculator.calculate::<i32>("1-(2-3)"));
    assert_eq!(Ok(Real(0.5)), calculator.calculate::<Real>("1/2^1"));
    assert_eq!(Ok(Real(3f64)), calculator.calculate::<Real>("1+200%"));
    assert_eq!(Ok(Real(5f64)), calculator.calculate::<Real>("1+2√16"));
    assert_eq!(
        Err(CalcError::ParseError("b".to_string())),
        calculator.calculate::<i32>("(1+b)*(c+2)")
    );
    assert_eq!(
        Err(CalcError::UnsupportedOperation),
        calculator.calculate::<i32>("(1/0)*(c+2)")
    );
}

#[test]
fn integers_are_read_back_from_their_text() {
    for v in [0, 5, -5, 10, 1000, 2147483647, -2147483647, i32::MIN] {
        assert_eq!(Some(v), <i32 as FromStrValue>::from_str(&v.format()));
    }
}
