//! An evaluator of arithmetic expressions over pluggable numeric domains.
//!
//! An expression is read in three stages, each pulled by the next: the
//! tokenizer cuts the characters into tokens, the shunting yard puts the
//! tokens in postfix order, and the stack machine reduces them to one value
//! of the chosen domain. Every stage is verified against a model of what it
//! hands out, and the models are proved to give a well-formed expression the
//! value that the precedence of its operators asks for.
//!
//! The traits of the library name, beside each operation, the function that
//! the contracts use for its result. A verified implementation states that
//! function and is held to it. An implementation that is not verified, such as
//! a domain of floating-point numbers, may leave it out: the contracts then
//! hold of a result that nothing is known of.
//!
//! - `source`: the stages' common interface, and the characters of a text.
//! - `tokenizer`: tokens, and the tokenizer.
//! - `shunting_yard`: the yard, and the postfix order of a sequence of tokens.
//! - `calculator`: the stack machine, the integer literals, and the errors.
//! - `math`: what a numeric domain offers, and the integer domain.
//! - `complex`: complex numbers over the components of a domain.
//! - `terminal`: the answers and the sessions of the program.
//! - `text`: between texts and sequences of characters.
//! - `expression`, `legibility`, `parentheses`, `theorems`: expressions as
//!   trees, tokens as text, parentheses and their partners, and what is
//!   proved of the stages together.
pub mod calculator;
pub mod complex;
pub mod expression;
pub mod legibility;
pub mod math;
pub mod parentheses;
pub mod shunting_yard;
pub mod source;
pub mod terminal;
pub mod text;
pub mod theorems;
pub mod tokenizer;
