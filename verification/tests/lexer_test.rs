use mankailib::Lexer;
use mankailib::Token;
use mankailib::TokenKind;

#[test]
fn lexer_initialization_and_basic_operations() {
    let mut lexer = Lexer::new(String::from("(foo)"));

    assert_eq!(lexer.advance(), '(');
    assert_eq!(lexer.advance(), 'f');
    assert_eq!(lexer.advance(), 'o');
    assert_eq!(lexer.advance(), 'o');
    assert_eq!(lexer.peek(), ')');
    assert_eq!(lexer.is_at_end(), false);
    assert_eq!(lexer.advance(), ')');
    assert_eq!(lexer.is_at_end(), true);
}

#[test]
fn lexing() {
    let mut lexer = Lexer::new(String::from("(*bar+ \"foo\" baz) 64.333 12 foo 12,2"));
    let mut token;

    if let Err(err) = lexer.scan() {
        panic!("{}", err.message);
    }

    token = lexer.tokens.pop().unwrap();
    assert_eq!(token, Token::new(String::from(""), TokenKind::Eof));

    token = lexer.tokens.pop().unwrap();
    assert_eq!(token, Token::new(String::from(",2"), TokenKind::Identifier));

    token = lexer.tokens.pop().unwrap();
    assert_eq!(
        token,
        Token::new(String::from("12"), TokenKind::Number((12.0f64).to_bits()))
    );

    token = lexer.tokens.pop().unwrap();
    assert_eq!(token, Token::new(String::from("foo"), TokenKind::Identifier));

    token = lexer.tokens.pop().unwrap();
    assert_eq!(
        token,
        Token::new(String::from("12"), TokenKind::Number((12.0f64).to_bits()))
    );

    token = lexer.tokens.pop().unwrap();
    assert_eq!(
        token,
        Token::new(String::from("64.333"), TokenKind::Number((64.333f64).to_bits()))
    );

    token = lexer.tokens.pop().unwrap();
    assert_eq!(token, Token::new(String::from(")"), TokenKind::RightParen));

    token = lexer.tokens.pop().unwrap();
    assert_eq!(token, Token::new(String::from("baz"), TokenKind::Identifier));

    token = lexer.tokens.pop().unwrap();
    assert_eq!(
        token,
        Token::new(String::from("\"foo\""), TokenKind::String(String::from("foo")))
    );

    token = lexer.tokens.pop().unwrap();
    assert_eq!(token, Token::new(String::from("*bar+"), TokenKind::Identifier));

    token = lexer.tokens.pop().unwrap();
    assert_eq!(token, Token::new(String::from("("), TokenKind::LeftParen));
}

#[test]
fn unfinished_string_is_a_lexing_error() {
    let mut lexer = Lexer::new(String::from("\"abc"));
    match lexer.scan() {
        Ok(()) => panic!("expected the scan to fail"),
        Err(err) => {
            assert_eq!(err.message, "unfinished string");
            assert_eq!(err.position, 0);
        }
    }
}
