use vstd::prelude::*;

verus! {

/// The kind of a lexed token. A numeric literal carries the IEEE-754 bit
/// pattern of the 64-bit value that the literal denotes.
#[derive(Debug)]
pub enum TokenKind {
    String(String),
    Number(u64),
    Identifier,
    LeftParen,
    RightParen,
    Eof,
}

/// The mathematical model of a token kind.
pub enum TokenKindModel {
    Str(Seq<char>),
    Num(u64),
    Identifier,
    LeftParen,
    RightParen,
    Eof,
}

impl View for TokenKind {
    type V = TokenKindModel;

    open spec fn view(&self) -> TokenKindModel {
        match self {
            TokenKind::String(s) => TokenKindModel::Str(s@),
            TokenKind::Number(n) => TokenKindModel::Num(*n),
            TokenKind::Identifier => TokenKindModel::Identifier,
            TokenKind::LeftParen => TokenKindModel::LeftParen,
            TokenKind::RightParen => TokenKindModel::RightParen,
            TokenKind::Eof => TokenKindModel::Eof,
        }
    }
}

impl Clone for TokenKind {
    fn clone(&self) -> (res: Self)
        ensures
            res@ == self@,
    {
        match self {
            TokenKind::String(s) => TokenKind::String(s.clone()),
            TokenKind::Number(n) => TokenKind::Number(*n),
            TokenKind::Identifier => TokenKind::Identifier,
            TokenKind::LeftParen => TokenKind::LeftParen,
            TokenKind::RightParen => TokenKind::RightParen,
            TokenKind::Eof => TokenKind::Eof,
        }
    }
}

impl PartialEq for TokenKind {
    fn eq(&self, other: &TokenKind) -> (r: bool) {
        match (self, other) {
            (TokenKind::String(a), TokenKind::String(b)) => *a == *b,
            (TokenKind::Number(a), TokenKind::Number(b)) => *a == *b,
            (TokenKind::Identifier, TokenKind::Identifier) => true,
            (TokenKind::LeftParen, TokenKind::LeftParen) => true,
            (TokenKind::RightParen, TokenKind::RightParen) => true,
            (TokenKind::Eof, TokenKind::Eof) => true,
            _ => false,
        }
    }
}

impl vstd::std_specs::cmp::PartialEqSpecImpl for TokenKind {
    open spec fn obeys_eq_spec() -> bool {
        true
    }

    open spec fn eq_spec(&self, other: &TokenKind) -> bool {
        self@ == other@
    }
}

/// A token: the lexeme it was read from, and its kind.
#[derive(Debug)]
pub struct Token {
    /// Corresponding lexeme.
    pub lexeme: String,
    /// Kind of the token.
    pub kind: TokenKind,
}

/// The mathematical model of a token.
pub struct TokenModel {
    pub lexeme: Seq<char>,
    pub kind: TokenKindModel,
}

impl View for Token {
    type V = TokenModel;

    open spec fn view(&self) -> TokenModel {
        TokenModel { lexeme: self.lexeme@, kind: self.kind@ }
    }
}

impl Clone for Token {
    fn clone(&self) -> (res: Self)
        ensures
            res@ == self@,
    {
        Token { lexeme: self.lexeme.clone(), kind: self.kind.clone() }
    }
}

impl PartialEq for Token {
    fn eq(&self, other: &Token) -> (r: bool) {
        self.lexeme == other.lexeme && self.kind == other.kind
    }
}

impl vstd::std_specs::cmp::PartialEqSpecImpl for Token {
    open spec fn obeys_eq_spec() -> bool {
        true
    }

    open spec fn eq_spec(&self, other: &Token) -> bool {
        self@ == other@
    }
}

/// The models of a sequence of tokens, in order.
pub open spec fn tokens_view(s: Seq<Token>) -> Seq<TokenModel> {
    Seq::new(s.len(), |i: int| s[i]@)
}

impl Token {
    /// Create a new token from lexeme and kind.
    pub fn new(lexeme: String, kind: TokenKind) -> (t: Token)
        ensures
            t@ == (TokenModel { lexeme: lexeme@, kind: kind@ }),
    {
        Token { lexeme, kind }
    }
}

} // verus!
