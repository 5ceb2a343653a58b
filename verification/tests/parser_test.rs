use mankailib::Lexer;
use mankailib::ParseError;
use mankailib::Parser;
use mankailib::Sexp;
use mankailib::Token;
use mankailib::TokenKind;

#[test]
fn parser_initialization_and_basic_operations() {
    let mut lexer = Lexer::new(String::from("(foo)"));
    if let Err(err) = lexer.scan() {
        panic!("{}", err.message);
    }

    let mut parser = Parser::new(lexer.tokens);
    let mut token;

    token = parser.advance().clone();
    assert_eq!(token, Token::new(String::from("("), TokenKind::LeftParen));

    token = parser.advance().clone();
    assert_eq!(token, Token::new(String::from("foo"), TokenKind::Identifier));

    token = parser.advance().clone();
    assert_eq!(token, Token::new(String::from(")"), TokenKind::RightParen));
}

#[test]
fn parsing() {
    let mut lexer = Lexer::new(String::from("(car (\"2\" 3) \"foo\" 12.0)"));
    if let Err(err) = lexer.scan() {
        panic!("{}", err.message);
    }

    let mut parser = Parser::new(lexer.tokens);
    match parser.parse() {
        Ok(sexp) => match sexp {
            Sexp::List(list) => {
                // Check the first element of the list i.e. `car`.
                if let Sexp::Atom(token) = list.get(0).unwrap() {
                    assert_eq!(
                        token.clone(),
                        Token::new(String::from("car"), TokenKind::Identifier)
                    );
                } else {
                    panic!("expected atom!");
                }

                // Check that the second element is a list.
                if let Sexp::List(_) = list.get(1).unwrap() {
                } else {
                    panic!("expected list!");
                }

                // Check the third element of the list i.e. `"foo"`.
                if let Sexp::Atom(token) = list.get(2).unwrap() {
                    assert_eq!(
                        token.clone(),
                        Token::new(String::from("\"foo\""), TokenKind::String(String::from("foo")))
                    );
                } else {
                    panic!("expected atom!");
                }

                // Check the fourth element of the list i.e. 12.0.
                if let Sexp::Atom(token) = list.get(3).unwrap() {
                    assert_eq!(
                        token.clone(),
                        Token::new(String::from("12.0"), TokenKind::Number((12.0f64).to_bits()))
                    );
                } else {
                    panic!("expected atom!");
                }
            }
            Sexp::Atom(_) => panic!("expected list!"),
        },
        Err(err) => panic!("{}", err.message),
    }
}

#[test]
fn unbalanced_expression() {
    let mut lexer = Lexer::new(String::from("(foo bar 32.66"));
    if let Err(err) = lexer.scan() {
        panic!("{}", err.message);
    }

    let mut parser = Parser::new(lexer.tokens);
    match parser.parse() {
        Ok(_) => panic!("expected to fail parsing!"),
        Err(err) => assert_eq!(
            err,
            ParseError::new("expected ')'", &Token::new(String::from(""), TokenKind::Eof))
        ),
    }
    if let Ok(_) = parser.parse() {}
}

#[test]
fn empty_input_has_no_tokens() {
    let mut lexer = Lexer::new(String::from(""));
    if let Err(err) = lexer.scan() {
        panic!("{}", err.message);
    }
    let mut parser = Parser::new(lexer.tokens);
    match parser.parse() {
        Ok(_) => panic!("expected to fail parsing!"),
        Err(err) => assert_eq!(err.message, "no tokens!"),
    }
}
