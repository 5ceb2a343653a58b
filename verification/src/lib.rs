pub mod environment;
pub mod error;
pub mod interpreter;
pub mod lexer;
pub mod native_functions;
pub mod numbers;
pub mod object;
pub mod parser;
pub mod semantics;
pub mod special_forms;
pub mod strutil;
pub mod token;

pub use environment::Environment;
pub use error::MankaiError;
pub use interpreter::Interpreter;
pub use interpreter::RuntimeError;
pub use lexer::Lexer;
pub use lexer::ScanError;
pub use object::MankaiObject;
pub use parser::ParseError;
pub use parser::Parser;
pub use parser::Sexp;
pub use token::Token;
pub use token::TokenKind;
