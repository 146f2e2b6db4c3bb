use calculator::shunting_yard::{Associativity, ShuntType, ShuntingYard, ShuntingYardToken};

#[test]
fn single_token() {
    let mut yard = ShuntingYard::new();
    yard.push("1");
    assert_eq!(vec!["1"], yard.into_vec());
}

#[test]
fn two_tokens() {
    let mut yard = ShuntingYard::new();
    yard.push("1");
    yard.push("+");
    assert_eq!(vec!["1", "+"], yard.into_vec());
}

#[test]
fn two_tokens_and_operator() {
    let mut yard = ShuntingYard::new();
    yard.push("1");
    yard.push("+");
    yard.push("2");
    assert_eq!(vec!["1", "2", "+"], yard.into_vec());
}

#[test]
fn two_operators_same_precedence() {
    let mut yard = ShuntingYard::new();
    yard.push("1");
    yard.push("+");
    yard.push("2");
    yard.push("-");
    yard.push("3");
    assert_eq!(vec!["1", "2", "+", "3", "-"], yard.into_vec());
}

#[test]
fn two_operators_different_precedence() {
    let mut yard = ShuntingYard::new();
    yard.push("1");
    yard.push("*");
    yard.push("2");
    yard.push("+");
    yard.push("3");
    assert_eq!(vec!["1", "2", "*", "3", "+"], yard.into_vec());
}

#[test]
fn two_operators_different_precedence_other_order() {
    let mut yard = ShuntingYard::new();
    yard.push("1");
    yard.push("+");
    yard.push("2");
    yard.push("*");
    yard.push("3");
    assert_eq!(vec!["1", "2", "3", "*", "+"], yard.into_vec());
}

#[test]
/// https://en.wikipedia.org/wiki/Shunting-yard_algorithm
fn wiki_example() {
    let mut yard = ShuntingYard::new();
    yard.push("A");
    yard.push("+");
    yard.push("B");
    yard.push("*");
    yard.push("C");
    yard.push("-");
    yard.push("D");
    assert_eq!(vec!["A", "B", "C", "*", "+", "D", "-"], yard.into_vec());
}

#[test]
fn unnecessary_bracket_test() {
    let mut yard = ShuntingYard::new();
    yard.push("1");
    yard.push("+");
    yard.push("(");
    yard.push("2");
    yard.push("*");
    yard.push("3");
    yard.push(")");
    assert_eq!(vec!["1", "2", "3", "*", "+"], yard.into_vec());
}

#[test]
fn bracket_test() {
    let mut yard = ShuntingYard::new();
    yard.push("(");
    yard.push("1");
    yard.push("+");
    yard.push("2");
    yard.push(")");
    yard.push("*");
    yard.push("3");
    assert_eq!(vec!["1", "2", "+", "3", "*"], yard.into_vec());
}

#[test]
fn bracket_test_preceding_operators() {
    let mut yard = ShuntingYard::new();
    yard.push("3");
    yard.push("*");
    yard.push("(");
    yard.push("1");
    yard.push("+");
    yard.push("2");
    yard.push(")");
    assert_eq!(vec!["3", "1", "2", "+", "*"], yard.into_vec());
}

#[test]
fn automatic_multiplication_of_adjacent_operands() {
    let mut yard = ShuntingYard::new();
    yard.push("3");
    yard.push("4");
    assert_eq!(vec!["3", "4", "*"], yard.into_vec());
}

#[test]
fn unmatched_close_is_dropped_and_remembered() {
    let mut yard = ShuntingYard::new();
    yard.push("1");
    yard.push("+");
    yard.push("2");
    assert!(!yard.unmatched_close());
    yard.push(")");
    assert!(yard.unmatched_close());
    yard.push("*");
    yard.push("3");
    assert_eq!(vec!["1", "2", "+", "3", "*"], yard.into_vec());
}

#[test]
fn unmatched_open_leaves_with_the_rest() {
    let mut yard = ShuntingYard::new();
    yard.push("1");
    yard.push("+");
    yard.push("(");
    yard.push("2");
    yard.push("*");
    yard.push("3");
    assert!(!yard.unmatched_close());
    assert_eq!(vec!["1", "2", "3", "*", "(", "+"], yard.into_vec());
}

#[test]
fn end_empties_the_stack_latest_first() {
    let mut yard = ShuntingYard::new();
    yard.push("1");
    yard.push("+");
    yard.push("2");
    yard.push("*");
    yard.push("3");
    yard.end();
    yard.end();
    assert_eq!(vec!["1", "2", "3", "*", "+"], yard.into_vec());
}

#[test]
fn parts_of_texts() {
    assert_eq!(ShuntType::Operand, "12".shunt_type());
    assert_eq!(ShuntType::Operand, "/".shunt_type());
    assert_eq!(ShuntType::Operand, "".shunt_type());
    assert_eq!(ShuntType::OpenBrace, "(".shunt_type());
    assert_eq!(ShuntType::CloseBrace, ")".shunt_type());
    assert_eq!(
        ShuntType::Operator { associativity: Associativity::Left, precedence: 0 },
        "-".shunt_type()
    );
    assert_eq!(
        ShuntType::Operator { associativity: Associativity::Left, precedence: 1 },
        "*".shunt_type()
    );
    assert_eq!(Some("*"), <&str as ShuntingYardToken>::operand_separator());
}
