use calculator::shunting_yard::Shunt;
use calculator::source::{collect, Characters, Source};
use calculator::tokenizer::Token::{Multiply, Plus, T};
use calculator::tokenizer::{Token, TokenizerState, Tokenize};

#[test]
fn number() {
    let tokens = Characters::new("1").tokenize();
    let map: Vec<Token> = collect(tokens);
    assert_eq!(1, map.len());
    assert_eq!(Some(&Token::T("1".to_string())), map.get(0))
}

#[test]
fn plus() {
    expect_token("+", &Token::Plus);
}

#[test]
fn minus() {
    expect_token("-", &Token::Minus);
}

#[test]
fn tokenizer_multiply() {
    expect_token("*", &Token::Multiply);
}

#[test]
fn multiply_with_lower_case_x() {
    expect_token("x", &Token::Multiply);
}

#[test]
fn multiply_with_upper_case_x() {
    expect_token("X", &Token::Multiply);
}

#[test]
fn divide() {
    expect_token("/", &Token::Divide);
}

#[test]
fn tokenizer_power() {
    expect_token("^", &Token::Power);
}

#[test]
fn root_sign() {
    expect_token("√", &Token::Root);
}

#[test]
fn percent_sign() {
    expect_token("%", &Token::Percent);
}

#[test]
fn open_brace() {
    expect_token("(", &Token::OpenBrace);
}

#[test]
fn close_brace() {
    expect_token(")", &Token::CloseBrace);
}

fn expect_token(input: &str, expected: &Token) {
    let tokens = Characters::new(input).tokenize();
    let map: Vec<Token> = collect(tokens);
    assert_eq!(1, map.len());
    assert_eq!(Some(expected), map.get(0));
}

#[test]
fn short_numbers_and_plus() {
    let tokens = Characters::new("1+2").tokenize();
    let map: Vec<String> = collect(tokens).into_iter().map(|t| t.to_string()).collect();
    assert_eq!(vec!["1", "+", "2"], map);
}

#[test]
fn longer_numbers_and_plus() {
    let tokens = Characters::new("123+456").tokenize();
    let map: Vec<String> = collect(tokens).into_iter().map(|t| t.to_string()).collect();
    assert_eq!(vec!["123", "+", "456"], map);
}

#[test]
fn longer_numbers_and_plus_as_tokens() {
    let tokens = collect(Characters::new("123+456").tokenize());
    assert_eq!(vec![T("123".to_string()), Plus, T("456".to_string())], tokens);
}

#[test]
fn tokenizer_a() {
    let tokens = Characters::new("123+456*12").tokenize().shunt();
    assert_eq!(
        vec![
            T("123".to_string()),
            T("456".to_string()),
            T("12".to_string()),
            Multiply,
            Plus,
        ],
        collect(tokens)
    );
}

#[test]
fn text_is_put_in_postfix_order() {
    let postfix = |input: &str| -> Vec<String> {
        collect(Characters::new(input).tokenize().shunt()).iter().map(|t| t.to_string()).collect()
    };
    assert_eq!(vec!["1", "2", "3", "*", "+"], postfix("1+2*3"));
    assert_eq!(vec!["1", "3", "+", "2", "*"], postfix("(1+3)*2"));
    assert_eq!(vec!["3", "2", "4", "^", "*"], postfix("3*(2^4)"));
    assert_eq!(vec!["3", "2", "4", "^", "*"], postfix("3*2^4"));
    assert_eq!(vec!["2pi"], postfix("2pi"));
    assert_eq!(vec!["2", "pi", "*"], postfix("2(pi)"));
    assert_eq!(vec!["2", "16", "√"], postfix("2√16"));
    assert_eq!(vec!["95", "%"], postfix("95%"));
    assert_eq!(vec!["1", "2", "+", "3", "*"], postfix("1+2)*3"));
    assert_eq!(vec!["1", "2", "(", "+"], postfix("1+(2"));
}

#[test]
fn unmatched_close_is_seen_at_the_end() {
    let mut postfix = Characters::new("1)").tokenize().shunt();
    assert!(!postfix.saw_unmatched_close());
    assert_eq!(Some(T("1".to_string())), postfix.next());
    assert_eq!(None, postfix.next());
    assert!(postfix.saw_unmatched_close());
    let mut postfix = Characters::new("(1)").tokenize().shunt();
    assert_eq!(Some(T("1".to_string())), postfix.next());
    assert_eq!(None, postfix.next());
    assert_eq!(None, postfix.next());
    assert!(!postfix.saw_unmatched_close());
}

#[test]
fn single_char() {
    let mut tokenizer = TokenizerState::new();
    tokenizer.push_char('1');
    let tokens = tokenizer.complete();
    assert_eq!(vec![T("1".to_string())], tokens);
}

#[test]
fn two_chars() {
    let mut tokenizer = TokenizerState::new();
    tokenizer.push_char('1');
    tokenizer.push_char('2');
    let tokens = tokenizer.complete();
    assert_eq!(vec![T("12".to_string())], tokens);
}

#[test]
fn two_chars_with_separator() {
    let mut tokenizer = TokenizerState::new();
    tokenizer.push_char('1');
    tokenizer.push_char('+');
    tokenizer.push_char('2');
    let tokens = tokenizer.complete();
    assert_eq!(vec![T("1".to_string()), Plus, T("2".to_string()),], tokens);
}

#[test]
fn whole_text_pushed_at_once() {
    let mut tokenizer = TokenizerState::new();
    tokenizer.push("2pi");
    tokenizer.push("+1");
    let tokens = tokenizer.complete();
    assert_eq!(vec![T("2pi".to_string()), Plus, T("1".to_string())], tokens);
}

#[test]
fn an_operand_is_a_longest_run_of_characters_that_are_no_operators() {
    let texts = |input: &str| -> Vec<String> {
        collect(Characters::new(input).tokenize()).iter().map(|t| t.to_string()).collect()
    };
    assert_eq!(vec!["2pi"], texts("2pi"));
    assert_eq!(vec!["pi2"], texts("pi2"));
    assert_eq!(vec!["3.5tau", "+", "1"], texts("3.5tau+1"));
    assert_eq!(vec!["1e5"], texts("1e5"));
    assert_eq!(vec!["1 2"], texts("1 2"));
    assert_eq!(vec!["abc"], texts("abc"));
    assert_eq!(vec!["1.2.3"], texts("1.2.3"));
    assert_eq!(vec!["2", "*", "3"], texts("2x3"));
    assert_eq!(vec!["e", "*", "p"], texts("exp"));
}

#[test]
fn a_letter_after_a_digit_joins_the_operand() {
    let mut tokenizer = TokenizerState::new();
    tokenizer.push_char('2');
    tokenizer.push_char('p');
    assert_eq!(vec![T("2p".to_string())], tokenizer.complete());
}

#[test]
fn empty_text_has_no_tokens() {
    let tokens = collect(Characters::new("").tokenize());
    assert_eq!(Vec::<Token>::new(), tokens);
}

#[test]
fn stream_stays_ended() {
    let mut tokens = Characters::new("7").tokenize();
    assert_eq!(Some(T("7".to_string())), tokens.next());
    assert_eq!(None, tokens.next());
    assert_eq!(None, tokens.next());
}

#[test]
fn every_token_is_written_as_its_sign() {
    let tokens = collect(Characters::new("(a+b-c*d/e^f√g%)").tokenize());
    let texts: Vec<String> = tokens.iter().map(|t| t.to_string()).collect();
    assert_eq!(
        vec!["(", "a", "+", "b", "-", "c", "*", "d", "/", "e", "^", "f", "√", "g", "%", ")"],
        texts
    );
}

#[test]
fn tokens_spell_their_text_and_are_read_back() {
    for input in ["", "2x3", "3X(4)", "2pi+1.5e", "(a+b-c*d/e^f√g%)", "1 2", "abc", ")(", "12.5.1tau"] {
        let tokens = collect(Characters::new(input).tokenize());
        let text: String = tokens.iter().map(|t| t.to_string()).collect();
        assert_eq!(input.replace('x', "*").replace('X', "*"), text);
        assert_eq!(tokens, collect(Characters::new(&text).tokenize()));
    }
}
