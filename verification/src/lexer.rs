use vstd::prelude::*;
use crate::numbers::{number_from_text, f64_from_decimal};
use crate::token::{tokens_view, Token, TokenKind, TokenKindModel, TokenModel};

verus! {

/// A lexing error.
#[derive(Debug)]
pub struct ScanError {
    /// Error message.
    pub message: String,
    /// Start of the problematic token.
    pub position: usize,
}

impl ScanError {
    /// Make a new lexing error.
    pub fn new(message: &str, position: usize) -> (e: ScanError)
        ensures
            e.message@ == message@,
            e.position == position,
    {
        ScanError { message: String::from_str(message), position }
    }
}

/// The model of a lexing error.
pub struct ScanErrorModel {
    pub message: Seq<char>,
    pub position: nat,
}

/// The whitespace characters that separate tokens.
pub open spec fn is_space_char(c: char) -> bool {
    c == ' ' || c == '\t' || c == '\n' || c == '\r'
}

/// Whether a character separates tokens: whitespace or a parenthesis.
pub open spec fn is_separator_char(c: char) -> bool {
    is_space_char(c) || c == '(' || c == ')'
}

/// Whether a character is a decimal digit.
pub open spec fn is_digit_char(c: char) -> bool {
    c == '0' || c == '1' || c == '2' || c == '3' || c == '4' || c == '5' || c == '6' || c == '7'
        || c == '8' || c == '9'
}

/// The first index at or past `i` holding no digit.
pub open spec fn digits_end(src: Seq<char>, i: nat) -> nat
    decreases src.len() - i,
{
    if i < src.len() && is_digit_char(src[i as int]) {
        digits_end(src, i + 1)
    } else {
        i
    }
}

/// Where a numeric literal whose first digit sits just before `i` ends:
/// after the integer digits, and after a decimal part when a dot directly
/// followed by a digit comes next.
pub open spec fn number_end(src: Seq<char>, i: nat) -> nat {
    let d = digits_end(src, i);
    if d + 1 < src.len() && src[d as int] == '.' && is_digit_char(src[d as int + 1]) {
        digits_end(src, d + 1)
    } else {
        d
    }
}

/// Where an identifier whose first character sits just before `i` ends:
/// at the first separator.
pub open spec fn identifier_end(src: Seq<char>, i: nat) -> nat
    decreases src.len() - i,
{
    if i < src.len() && !is_separator_char(src[i as int]) {
        identifier_end(src, i + 1)
    } else {
        i
    }
}

/// The index just past the closing quote of a string literal whose opening
/// quote sits just before `j`; a backslash skips the character after it.
/// `None` when the string never closes.
pub open spec fn string_end(src: Seq<char>, j: nat) -> Option<nat>
    decreases src.len() + 1 - j,
{
    if j >= src.len() {
        None
    } else if src[j as int] == '\\' {
        if j + 2 <= src.len() {
            string_end(src, j + 2)
        } else {
            string_end(src, src.len() as nat)
        }
    } else if src[j as int] == '"' {
        Some(j + 1)
    } else {
        string_end(src, j + 1)
    }
}

/// Clamp a token-end index into `(i, len]`, so that the tokenization spec
/// always advances; the scanners' end indices already lie there.
pub open spec fn advance_to(e: nat, i: nat, len: nat) -> nat {
    if e <= i {
        i + 1
    } else if e > len {
        len
    } else {
        e
    }
}

/// Prepend a token to the outcome of lexing the rest.
pub open spec fn cons_token(t: TokenModel, rest: Result<Seq<TokenModel>, ScanErrorModel>) -> Result<
    Seq<TokenModel>,
    ScanErrorModel,
> {
    match rest {
        Ok(ts) => Ok(seq![t] + ts),
        Err(e) => Err(e),
    }
}

/// The tokens of the source from index `i` on: whitespace is skipped, a
/// parenthesis is one token, a quote opens a string literal, a digit a
/// numeric literal, anything else an identifier; the end of the source
/// yields the Eof token.
pub open spec fn lex_from(src: Seq<char>, i: nat) -> Result<Seq<TokenModel>, ScanErrorModel>
    decreases src.len() - i,
{
    if i >= src.len() {
        Ok(seq![TokenModel { lexeme: Seq::empty(), kind: TokenKindModel::Eof }])
    } else {
        let c = src[i as int];
        if is_space_char(c) {
            lex_from(src, i + 1)
        } else if c == '(' {
            cons_token(
                TokenModel {
                    lexeme: src.subrange(i as int, i as int + 1),
                    kind: TokenKindModel::LeftParen,
                },
                lex_from(src, i + 1),
            )
        } else if c == ')' {
            cons_token(
                TokenModel {
                    lexeme: src.subrange(i as int, i as int + 1),
                    kind: TokenKindModel::RightParen,
                },
                lex_from(src, i + 1),
            )
        } else if c == '"' {
            match string_end(src, i + 1) {
                None => Err(ScanErrorModel { message: "unfinished string"@, position: i }),
                Some(e) => {
                    let e2 = advance_to(e, i, src.len() as nat);
                    cons_token(
                        TokenModel {
                            lexeme: src.subrange(i as int, e2 as int),
                            kind: TokenKindModel::Str(src.subrange(i as int + 1, e2 as int - 1)),
                        },
                        lex_from(src, e2),
                    )
                },
            }
        } else if is_digit_char(c) {
            let e2 = advance_to(number_end(src, i + 1), i, src.len() as nat);
            cons_token(
                TokenModel {
                    lexeme: src.subrange(i as int, e2 as int),
                    kind: TokenKindModel::Num(number_from_text(src.subrange(i as int, e2 as int))),
                },
                lex_from(src, e2),
            )
        } else {
            let e2 = advance_to(identifier_end(src, i + 1), i, src.len() as nat);
            cons_token(
                TokenModel {
                    lexeme: src.subrange(i as int, e2 as int),
                    kind: TokenKindModel::Identifier,
                },
                lex_from(src, e2),
            )
        }
    }
}

/// `digits_end` stays within the source.
pub proof fn lemma_digits_end(src: Seq<char>, i: nat)
    requires
        i <= src.len(),
    ensures
        i <= digits_end(src, i) <= src.len(),
    decreases src.len() - i,
{
    if i < src.len() && is_digit_char(src[i as int]) {
        lemma_digits_end(src, i + 1);
    }
}

/// `number_end` stays within the source.
pub proof fn lemma_number_end(src: Seq<char>, i: nat)
    requires
        i <= src.len(),
    ensures
        i <= number_end(src, i) <= src.len(),
{
    lemma_digits_end(src, i);
    let d = digits_end(src, i);
    if d + 1 < src.len() && src[d as int] == '.' && is_digit_char(src[d as int + 1]) {
        lemma_digits_end(src, d + 1);
    }
}

/// `identifier_end` stays within the source.
pub proof fn lemma_identifier_end(src: Seq<char>, i: nat)
    requires
        i <= src.len(),
    ensures
        i <= identifier_end(src, i) <= src.len(),
    decreases src.len() - i,
{
    if i < src.len() && !is_separator_char(src[i as int]) {
        lemma_identifier_end(src, i + 1);
    }
}

/// A closing quote that is found lies past its opening and within the
/// source.
pub proof fn lemma_string_end(src: Seq<char>, j: nat)
    requires
        j <= src.len(),
    ensures
        string_end(src, j) matches Some(e) ==> j < e <= src.len(),
    decreases src.len() + 1 - j,
{
    if j < src.len() {
        if src[j as int] == '\\' {
            if j + 2 <= src.len() {
                lemma_string_end(src, j + 2);
            } else {
                lemma_string_end(src, src.len() as nat);
            }
        } else if src[j as int] != '"' {
            lemma_string_end(src, j + 1);
        }
    }
}

/// The lexer.
pub struct Lexer {
    /// The source code.
    pub source: String,
    /// The lexed tokens.
    pub tokens: Vec<Token>,
    /// Current character index.
    pub current: usize,
    /// Start of current lexeme.
    pub start: usize,
}

impl Lexer {
    /// Make a new lexer from some source code.
    pub fn new(source: String) -> (l: Lexer)
        ensures
            l.source@ == source@,
            l.tokens@.len() == 0,
            l.current == 0,
            l.start == 0,
    {
        Lexer { source, tokens: Vec::new(), current: 0, start: 0 }
    }

    /// Check if the lexer is at the end (or past the end) of the source
    /// code.
    pub fn is_at_end(&self) -> (r: bool)
        ensures
            r == (self.current >= self.source@.len()),
    {
        self.current >= self.source.as_str().unicode_len()
    }

    /// Advance the lexer, returning the character read.
    pub fn advance(&mut self) -> (c: char)
        requires
            old(self).current < old(self).source@.len(),
        ensures
            final(self).source@ == old(self).source@,
            final(self).tokens@ == old(self).tokens@,
            final(self).start == old(self).start,
            final(self).current == old(self).current + 1,
            c == old(self).source@[old(self).current as int],
    {
        let n = self.source.as_str().unicode_len();
        proof {
            assert(self.current < n);
        }
        let c = self.source.as_str().get_char(self.current);
        self.current = self.current + 1;
        c
    }

    /// Peek the next character without advancing the lexer; the end of the
    /// source reads as a NUL.
    pub fn peek(&self) -> (c: char)
        ensures
            c == if self.current >= self.source@.len() {
                '\0'
            } else {
                self.source@[self.current as int]
            },
    {
        if self.is_at_end() {
            '\0'
        } else {
            self.source.as_str().get_char(self.current)
        }
    }

    /// Peek the character after the next one; past the end reads as a NUL.
    pub fn peek_next(&self) -> (c: char)
        ensures
            c == if self.current + 1 >= self.source@.len() {
                '\0'
            } else {
                self.source@[self.current + 1]
            },
    {
        let n = self.source.as_str().unicode_len();
        if self.current >= n || self.current + 1 >= n {
            '\0'
        } else {
            self.source.as_str().get_char(self.current + 1)
        }
    }

    /// Return if the character is a separator (whitespace or parenthesis).
    pub fn is_separator(c: char) -> (r: bool)
        ensures
            r == is_separator_char(c),
    {
        c == ' ' || c == '\t' || c == '\n' || c == '\r' || c == '(' || c == ')'
    }

    /// Check whether the character is a decimal digit.
    fn is_digit(c: char) -> (r: bool)
        ensures
            r == is_digit_char(c),
    {
        match c {
            '0' | '1' | '2' | '3' | '4' | '5' | '6' | '7' | '8' | '9' => true,
            _ => false,
        }
    }

    /// Add a new token to the internal store with the given kind; the
    /// lexeme runs from the current token's start to the current position.
    fn add_token(&mut self, kind: TokenKind)
        requires
            old(self).start <= old(self).current,
            old(self).current <= old(self).source@.len(),
        ensures
            final(self).source@ == old(self).source@,
            final(self).start == old(self).start,
            final(self).current == old(self).current,
            final(self).tokens@.len() == old(self).tokens@.len() + 1,
            final(self).tokens@.drop_last() == old(self).tokens@,
            final(self).tokens@.last()@ == (TokenModel {
                lexeme: old(self).source@.subrange(
                    old(self).start as int,
                    old(self).current as int,
                ),
                kind: kind@,
            }),
    {
        let lexeme_slice = self.source.as_str().substring_char(self.start, self.current);
        let lexeme = String::from_str(lexeme_slice);
        let token = Token::new(lexeme, kind);
        let ghost pre = self.tokens@;
        self.tokens.push(token);
        proof {
            assert(self.tokens@.drop_last() =~= pre);
        }
    }
}

impl Lexer {
    /// Whether a digit stands at the current position.
    fn digit_at(&self) -> (r: bool)
        ensures
            r == (self.current < self.source@.len() && is_digit_char(
                self.source@[self.current as int],
            )),
    {
        if self.is_at_end() {
            false
        } else {
            Lexer::is_digit(self.source.as_str().get_char(self.current))
        }
    }

    /// Whether an identifier continues at the current position.
    fn ident_char_at(&self) -> (r: bool)
        ensures
            r == (self.current < self.source@.len() && !is_separator_char(
                self.source@[self.current as int],
            )),
    {
        if self.is_at_end() {
            false
        } else {
            !Lexer::is_separator(self.source.as_str().get_char(self.current))
        }
    }

    /// Tokenize a string: the opening quote was already consumed; a
    /// backslash skips the character after it, and the lexer fails when
    /// the string never closes.
    fn finish_string(&mut self) -> (r: Result<(), ScanError>)
        requires
            old(self).start + 1 == old(self).current,
            old(self).current <= old(self).source@.len(),
        ensures
            final(self).source@ == old(self).source@,
            final(self).start == old(self).start,
            match r {
                Ok(()) => {
                    &&& string_end(old(self).source@, old(self).current as nat) == Some(
                        final(self).current as nat,
                    )
                    &&& final(self).current <= old(self).source@.len()
                    &&& final(self).tokens@.len() == old(self).tokens@.len() + 1
                    &&& final(self).tokens@.drop_last() == old(self).tokens@
                    &&& final(self).tokens@.last()@ == (TokenModel {
                        lexeme: old(self).source@.subrange(
                            old(self).start as int,
                            final(self).current as int,
                        ),
                        kind: TokenKindModel::Str(
                            old(self).source@.subrange(
                                old(self).start as int + 1,
                                final(self).current as int - 1,
                            ),
                        ),
                    })
                },
                Err(e) => {
                    &&& string_end(old(self).source@, old(self).current as nat) is None
                    &&& e.message@ == "unfinished string"@
                    &&& e.position == old(self).start
                    &&& final(self).tokens@ == old(self).tokens@
                    &&& old(self).current <= final(self).current
                },
            },
    {
        let ghost src = self.source@;
        let ghost j0 = self.current as nat;
        let n = self.source.as_str().unicode_len();
        loop
            invariant
                src == old(self).source@,
                self.source@ == src,
                n == src.len(),
                self.start == old(self).start,
                self.tokens@ == old(self).tokens@,
                self.start + 1 <= self.current,
                self.current <= n,
                j0 == old(self).current as nat,
                old(self).current <= self.current,
                string_end(src, j0) == string_end(src, self.current as nat),
            decreases src.len() - self.current,
        {
            if self.is_at_end() {
                return Err(ScanError::new("unfinished string", self.start));
            }
            let ghost j = self.current as nat;
            let next = self.advance();
            if next == '\\' {
                if self.current < n {
                    self.current = self.current + 1;
                } else {
                    proof {
                        assert(string_end(src, j) == string_end(src, src.len() as nat));
                    }
                    return Err(ScanError::new("unfinished string", self.start));
                }
            } else if next == '"' {
                let content_slice = self.source.as_str().substring_char(
                    self.start + 1,
                    self.current - 1,
                );
                let content = String::from_str(content_slice);
                self.add_token(TokenKind::String(content));
                proof {
                    assert(string_end(src, j0) == Some(self.current as nat));
                }
                return Ok(());
            }
        }
    }

    /// Tokenize a number: its first digit was already consumed; a dot
    /// directly followed by a digit starts the decimal part.
    fn finish_number(&mut self) -> (r: Result<(), ScanError>)
        requires
            old(self).start + 1 == old(self).current,
            old(self).current <= old(self).source@.len(),
        ensures
            final(self).source@ == old(self).source@,
            final(self).start == old(self).start,
            r is Ok,
            final(self).current == number_end(old(self).source@, old(self).current as nat),
            final(self).current <= old(self).source@.len(),
            final(self).tokens@.len() == old(self).tokens@.len() + 1,
            final(self).tokens@.drop_last() == old(self).tokens@,
            final(self).tokens@.last()@ == (TokenModel {
                lexeme: old(self).source@.subrange(
                    old(self).start as int,
                    final(self).current as int,
                ),
                kind: TokenKindModel::Num(
                    number_from_text(
                        old(self).source@.subrange(
                            old(self).start as int,
                            final(self).current as int,
                        ),
                    ),
                ),
            }),
    {
        let ghost src = self.source@;
        let ghost c0 = self.current as nat;
        let n = self.source.as_str().unicode_len();
        // Consume the non-decimal part.
        while self.digit_at()
            invariant
                src == old(self).source@,
                self.source@ == src,
                n == src.len(),
                self.start == old(self).start,
                self.tokens@ == old(self).tokens@,
                self.start + 1 <= self.current,
                self.current <= n,
                c0 == old(self).current as nat,
                digits_end(src, c0) == digits_end(src, self.current as nat),
            decreases src.len() - self.current,
        {
            self.current = self.current + 1;
        }
        proof {
            assert(digits_end(src, self.current as nat) == self.current as nat);
        }
        // Check if the number has a decimal part.
        let dot = self.peek();
        let after = self.peek_next();
        if dot == '.' && Lexer::is_digit(after) {
            let ghost d = self.current as nat;
            // Consume the '.'.
            self.current = self.current + 1;
            // Consume the decimal part.
            while self.digit_at()
                invariant
                    self.source@ == src,
                    n == src.len(),
                    self.start == old(self).start,
                    self.tokens@ == old(self).tokens@,
                    self.start + 1 <= self.current,
                    self.current <= n,
                    c0 == old(self).current as nat,
                    number_end(src, c0) == digits_end(src, d + 1),
                    digits_end(src, d + 1) == digits_end(src, self.current as nat),
                decreases src.len() - self.current,
            {
                self.current = self.current + 1;
            }
            proof {
                assert(digits_end(src, self.current as nat) == self.current as nat);
                assert(number_end(src, c0) == self.current as nat);
            }
        } else {
            proof {
                assert(number_end(src, c0) == self.current as nat);
            }
        }
        let lexeme_slice = self.source.as_str().substring_char(self.start, self.current);
        let bits = f64_from_decimal(lexeme_slice);
        self.add_token(TokenKind::Number(bits));
        Ok(())
    }

    /// Tokenize an identifier: everything up to the next separator.
    fn finish_identifier(&mut self) -> (r: Result<(), ScanError>)
        requires
            old(self).start + 1 == old(self).current,
            old(self).current <= old(self).source@.len(),
        ensures
            final(self).source@ == old(self).source@,
            final(self).start == old(self).start,
            r is Ok,
            final(self).current == identifier_end(old(self).source@, old(self).current as nat),
            final(self).current <= old(self).source@.len(),
            final(self).tokens@.len() == old(self).tokens@.len() + 1,
            final(self).tokens@.drop_last() == old(self).tokens@,
            final(self).tokens@.last()@ == (TokenModel {
                lexeme: old(self).source@.subrange(
                    old(self).start as int,
                    final(self).current as int,
                ),
                kind: TokenKindModel::Identifier,
            }),
    {
        let ghost src = self.source@;
        let ghost c0 = self.current as nat;
        let n = self.source.as_str().unicode_len();
        while self.ident_char_at()
            invariant
                src == old(self).source@,
                self.source@ == src,
                n == src.len(),
                self.start == old(self).start,
                self.tokens@ == old(self).tokens@,
                self.start + 1 <= self.current,
                self.current <= n,
                c0 == old(self).current as nat,
                identifier_end(src, c0) == identifier_end(src, self.current as nat),
            decreases src.len() - self.current,
        {
            self.current = self.current + 1;
        }
        proof {
            assert(identifier_end(src, self.current as nat) == self.current as nat);
        }
        self.add_token(TokenKind::Identifier);
        Ok(())
    }

    /// Scan a new token, or skip one whitespace character.
    fn scan_token(&mut self) -> (r: Result<(), ScanError>)
        requires
            old(self).start == old(self).current,
            old(self).current < old(self).source@.len(),
        ensures
            final(self).source@ == old(self).source@,
            old(self).current < final(self).current,
            final(self).tokens@.len() >= old(self).tokens@.len(),
            final(self).tokens@.subrange(0, old(self).tokens@.len() as int) == old(self).tokens@,
            match r {
                Ok(()) => {
                    &&& final(self).current <= old(self).source@.len()
                    &&& lex_from(old(self).source@, old(self).current as nat) == (match lex_from(
                        old(self).source@,
                        final(self).current as nat,
                    ) {
                        Ok(rest) => Ok(
                            tokens_view(final(self).tokens@.skip(old(self).tokens@.len() as int))
                                + rest,
                        ),
                        Err(m) => Err(m),
                    })
                },
                Err(e) => lex_from(old(self).source@, old(self).current as nat) == Err::<
                    Seq<TokenModel>,
                    ScanErrorModel,
                >(ScanErrorModel { message: e.message@, position: e.position as nat }),
            },
    {
        let ghost src = self.source@;
        let ghost i = self.current as nat;
        let c = self.advance();
        if c == ' ' || c == '\t' || c == '\n' || c == '\r' {
            proof {
                assert(lex_from(src, i) == lex_from(src, self.current as nat));
                assert(self.tokens@.subrange(0, self.tokens@.len() as int) =~= self.tokens@);
                assert(self.tokens@.skip(self.tokens@.len() as int).len() == 0);
                if lex_from(src, self.current as nat) is Ok {
                    let rest = lex_from(src, self.current as nat)->Ok_0;
                    assert(tokens_view(self.tokens@.skip(self.tokens@.len() as int)) + rest
                        =~= rest);
                }
            }
            return Ok(());
        }
        match c {
            '(' => {
                self.add_token(TokenKind::LeftParen);
                proof {
                    self.lemma_one_token_added(old(self).tokens@, src, i);
                }
                return Ok(());
            },
            ')' => {
                self.add_token(TokenKind::RightParen);
                proof {
                    self.lemma_one_token_added(old(self).tokens@, src, i);
                }
                return Ok(());
            },
            '"' => {
                let r = self.finish_string();
                match r {
                    Ok(()) => {
                        proof {
                            lemma_string_end(src, i + 1);
                            assert(advance_to(self.current as nat, i, src.len() as nat)
                                == self.current as nat);
                            self.lemma_one_token_added(old(self).tokens@, src, i);
                        }
                        return Ok(());
                    },
                    Err(e) => {
                        return Err(e);
                    },
                }
            },
            _ => {
                if Lexer::is_digit(c) {
                    let r = self.finish_number();
                    proof {
                        lemma_number_end(src, i + 1);
                        assert(advance_to(self.current as nat, i, src.len() as nat)
                            == self.current as nat);
                        self.lemma_one_token_added(old(self).tokens@, src, i);
                    }
                    return r;
                } else {
                    let r = self.finish_identifier();
                    proof {
                        lemma_identifier_end(src, i + 1);
                        assert(advance_to(self.current as nat, i, src.len() as nat)
                            == self.current as nat);
                        self.lemma_one_token_added(old(self).tokens@, src, i);
                    }
                    return r;
                }
            },
        }
    }

    /// After one token was pushed, the new tokens are the old ones and the
    /// pushed one; the continuation form of the tokenization follows.
    proof fn lemma_one_token_added(&self, pre: Seq<Token>, src: Seq<char>, i: nat)
        requires
            self.tokens@.len() == pre.len() + 1,
            self.tokens@.drop_last() == pre,
        ensures
            self.tokens@.subrange(0, pre.len() as int) == pre,
            tokens_view(self.tokens@.skip(pre.len() as int)) =~= seq![self.tokens@.last()@],
    {
        assert(self.tokens@.subrange(0, pre.len() as int) =~= self.tokens@.drop_last());
        assert(self.tokens@.skip(pre.len() as int).len() == 1);
        assert(self.tokens@.skip(pre.len() as int)[0] == self.tokens@.last());
    }

    /// Scan the entire source code.
    pub fn scan(&mut self) -> (r: Result<(), ScanError>)
        requires
            old(self).current == 0,
            old(self).start == 0,
            old(self).tokens@.len() == 0,
        ensures
            final(self).source@ == old(self).source@,
            match r {
                Ok(()) => lex_from(old(self).source@, 0) == Ok::<Seq<TokenModel>, ScanErrorModel>(
                    tokens_view(final(self).tokens@),
                ),
                Err(e) => lex_from(old(self).source@, 0) == Err::<Seq<TokenModel>, ScanErrorModel>(
                    ScanErrorModel { message: e.message@, position: e.position as nat },
                ),
            },
    {
        let ghost src = self.source@;
        proof {
            assert(tokens_view(self.tokens@).len() == 0);
        }
        while !self.is_at_end()
            invariant
                src == old(self).source@,
                self.source@ == src,
                self.current <= src.len(),
                lex_from(src, 0) == (match lex_from(src, self.current as nat) {
                    Ok(rest) => Ok::<Seq<TokenModel>, ScanErrorModel>(
                        tokens_view(self.tokens@) + rest,
                    ),
                    Err(m) => Err::<Seq<TokenModel>, ScanErrorModel>(m),
                }),
            decreases src.len() - self.current,
        {
            self.start = self.current;
            let ghost pre_tokens = self.tokens@;
            match self.scan_token() {
                Ok(()) => {
                    proof {
                        if lex_from(src, self.current as nat) is Ok {
                            let rest = lex_from(src, self.current as nat)->Ok_0;
                            let delta = self.tokens@.skip(pre_tokens.len() as int);
                            assert(tokens_view(self.tokens@) =~= tokens_view(pre_tokens)
                                + tokens_view(delta)) by {
                                assert forall|k: int|
                                    0 <= k < self.tokens@.len() implies tokens_view(self.tokens@)[k]
                                    == (tokens_view(pre_tokens) + tokens_view(delta))[k] by {
                                    if k < pre_tokens.len() {
                                        assert(self.tokens@[k] == self.tokens@.subrange(
                                            0,
                                            pre_tokens.len() as int,
                                        )[k]);
                                    } else {
                                        assert(delta[k - pre_tokens.len()] == self.tokens@[k]);
                                    }
                                }
                            }
                            assert(tokens_view(pre_tokens) + (tokens_view(delta) + rest)
                                =~= tokens_view(self.tokens@) + rest);
                        }
                    }
                },
                Err(e) => {
                    return Err(e);
                },
            }
        }
        self.start = self.current;
        let ghost pre_tokens = self.tokens@;
        self.add_token(TokenKind::Eof);
        proof {
            assert(self.current as nat == src.len());
            assert(src.subrange(self.current as int, self.current as int) =~= Seq::<
                char,
            >::empty());
            self.lemma_one_token_added(pre_tokens, src, self.current as nat);
            assert(self.tokens@.last()@ == (TokenModel {
                lexeme: Seq::empty(),
                kind: TokenKindModel::Eof,
            }));
            assert(tokens_view(self.tokens@) =~= tokens_view(pre_tokens) + seq![
                self.tokens@.last()@,
            ]) by {
                assert forall|k: int|
                    0 <= k < self.tokens@.len() implies tokens_view(self.tokens@)[k] == (
                    tokens_view(pre_tokens) + seq![self.tokens@.last()@])[k] by {
                    if k < pre_tokens.len() {
                        assert(self.tokens@.drop_last()[k] == self.tokens@[k]);
                    }
                }
            }
        }
        Ok(())
    }
}

} // verus!
