use vstd::prelude::*;
use crate::interpreter::RuntimeError;
use crate::lexer::ScanError;
use crate::parser::ParseError;
use crate::strutil::{dec_digits, usize_to_string};

verus! {

/// A general Mankai error (can be a lexing error, a parsing error or a
/// runtime error), rendered with a prefix naming its origin.
#[derive(Debug)]
pub struct MankaiError {
    /// Error message.
    pub message: String,
}

/// The rendering of a lexing error: its source position, then its
/// message.
pub open spec fn scan_error_text(position: nat, message: Seq<char>) -> Seq<char> {
    "Lexing error at "@ + dec_digits(position) + ": "@ + message
}

/// The rendering of a parsing error: the offending token's lexeme when
/// one is known, then the message.
pub open spec fn parse_error_text(token: Option<crate::token::TokenModel>, message: Seq<char>) -> Seq<char> {
    match token {
        Some(t) => "Parsing error"@ + " at '"@ + t.lexeme + "'"@ + ": "@ + message,
        None => "Parsing error"@ + ": "@ + message,
    }
}

/// The rendering of a runtime error.
pub open spec fn runtime_error_text(message: Seq<char>) -> Seq<char> {
    "Runtime error: "@ + message
}

impl From<ScanError> for MankaiError {
    fn from(err: ScanError) -> (e: Self)
        ensures
            e.message@ == scan_error_text(err.position as nat, err.message@),
    {
        let mut message = String::new();
        message.append("Lexing error at ");
        let digits = usize_to_string(err.position);
        message.append(digits.as_str());
        message.append(": ");
        message.append(err.message.as_str());
        MankaiError { message }
    }
}

impl vstd::std_specs::convert::FromSpecImpl<ScanError> for MankaiError {
    open spec fn obeys_from_spec() -> bool {
        false
    }

    open spec fn from_spec(v: ScanError) -> MankaiError {
        arbitrary()
    }
}

impl From<ParseError> for MankaiError {
    fn from(err: ParseError) -> (e: Self)
        ensures
            e.message@ == parse_error_text(err@.token, err@.message),
    {
        let mut message = String::new();
        message.append("Parsing error");
        match &err.token {
            Some(token) => {
                message.append(" at '");
                message.append(token.lexeme.as_str());
                message.append("'");
            },
            None => {},
        }
        message.append(": ");
        message.append(err.message.as_str());
        MankaiError { message }
    }
}

impl vstd::std_specs::convert::FromSpecImpl<ParseError> for MankaiError {
    open spec fn obeys_from_spec() -> bool {
        false
    }

    open spec fn from_spec(v: ParseError) -> MankaiError {
        arbitrary()
    }
}

impl From<RuntimeError> for MankaiError {
    fn from(err: RuntimeError) -> (e: Self)
        ensures
            e.message@ == runtime_error_text(err@),
    {
        let mut message = String::new();
        message.append("Runtime error: ");
        message.append(err.message.as_str());
        MankaiError { message }
    }
}

impl vstd::std_specs::convert::FromSpecImpl<RuntimeError> for MankaiError {
    open spec fn obeys_from_spec() -> bool {
        false
    }

    open spec fn from_spec(v: RuntimeError) -> MankaiError {
        arbitrary()
    }
}

} // verus!
