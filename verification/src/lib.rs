/// The nodes of the syntax tree, their mathematical values and their text.
pub mod ast;
/// The scope in which names are bound to values.
pub mod environment;
/// The evaluator, which walks the tree.
pub mod evaluator;
/// What the parser reads from a stream of tokens, as a mathematical function.
pub mod grammar;
/// The lexer, which turns characters into tokens.
pub mod lexer;
/// The values that evaluation results in.
pub mod object;
/// The parser, which turns tokens into a tree.
pub mod parser;
/// Precedence and associativity of the binary operators.
pub mod precedence;
/// Parsing never gives back a token and never loses an error.
pub mod progress;
/// What evaluation results in, as a mathematical function.
pub mod semantics;
/// Characters, decimal numbers and strings.
pub mod text;
/// The tokens of the language.
pub mod token;
