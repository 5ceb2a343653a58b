use mankailib::Interpreter;
use mankailib::Lexer;
use mankailib::MankaiObject;
use mankailib::Parser;
use mankailib::Sexp;
use mankailib::Token;
use mankailib::TokenKind;

#[test]
fn atom_evaluation() {
    // Number literal.
    let mut lexer = Lexer::new(String::from("5"));
    if let Err(err) = lexer.scan() {
        panic!("{}", err.message);
    }

    let mut parser = Parser::new(lexer.tokens);
    let mut interpreter = Interpreter::new();

    match parser.parse() {
        Ok(expr) => match interpreter.evaluate(&expr) {
            Ok(value) => assert_eq!(value, MankaiObject::Number((5.0f64).to_bits())),
            Err(err) => panic!("{}", err.message),
        },
        Err(err) => panic!("{}", err.message),
    }

    // String literal.
    lexer = Lexer::new(String::from("\"foo\""));
    if let Err(err) = lexer.scan() {
        panic!("{}", err.message);
    }

    parser = Parser::new(lexer.tokens);
    interpreter = Interpreter::new();

    match parser.parse() {
        Ok(expr) => match interpreter.evaluate(&expr) {
            Ok(value) => assert_eq!(value, MankaiObject::String(String::from("foo"))),
            Err(err) => panic!("{}", err.message),
        },
        Err(err) => panic!("{}", err.message),
    }

    // Symbol non-binded.
    lexer = Lexer::new(String::from("foo"));
    if let Err(err) = lexer.scan() {
        panic!("{}", err.message);
    }

    parser = Parser::new(lexer.tokens);
    interpreter = Interpreter::new();

    match parser.parse() {
        Ok(expr) => {
            if let Ok(_) = interpreter.evaluate(&expr) {
                panic!("found nonexistent bidning");
            }
        }
        Err(err) => panic!("{}", err.message),
    }

    // Symbol binded.
    lexer = Lexer::new(String::from("bar"));
    if let Err(err) = lexer.scan() {
        panic!("{}", err.message);
    }

    parser = Parser::new(lexer.tokens);
    interpreter = Interpreter::new();

    interpreter.environment.define(
        &Token::new(String::from("bar"), TokenKind::Identifier),
        MankaiObject::Number((2.0f64).to_bits()),
    );

    match parser.parse() {
        Ok(expr) => match interpreter.evaluate(&expr) {
            Ok(value) => assert_eq!(value, MankaiObject::Number((2.0f64).to_bits())),
            Err(err) => panic!("{}", err.message),
        },
        Err(err) => panic!("{}", err.message),
    }
}

#[test]
fn set_special_form() {
    let mut lexer = Lexer::new(String::from("(set! foo \"bar\")"));
    if let Err(err) = lexer.scan() {
        panic!("{}", err.message);
    }

    let mut parser = Parser::new(lexer.tokens);
    let mut interpreter = Interpreter::new();

    match parser.parse() {
        Ok(expr) => match interpreter.evaluate(&expr) {
            Ok(value) => assert_eq!(value, MankaiObject::String(String::from("bar"))),
            Err(err) => panic!("{}", err.message),
        },
        Err(err) => panic!("{}", err.message),
    }

    lexer = Lexer::new(String::from("foo"));
    if let Err(err) = lexer.scan() {
        panic!("{}", err.message);
    }

    parser = Parser::new(lexer.tokens);

    match parser.parse() {
        Ok(expr) => match interpreter.evaluate(&expr) {
            Ok(value) => assert_eq!(value, MankaiObject::String(String::from("bar"))),
            Err(err) => panic!("{}", err.message),
        },
        Err(err) => panic!("{}", err.message),
    }
}

#[test]
fn anonymous_function_call() {
    let mut lexer = Lexer::new(String::from("(my-addition 1 2)"));
    if let Err(err) = lexer.scan() {
        panic!("{}", err.message);
    }

    let mut parser = Parser::new(lexer.tokens);
    let mut interpreter = Interpreter::new();

    // Bring to scope "my-addition": a function that performs addition of
    // two numbers using the native '+'.
    interpreter.environment.define(
        &Token::new(String::from("my-addition"), TokenKind::Identifier),
        MankaiObject::Function {
            name: Some(String::from("my-addition")),
            arguments_identifiers: vec![
                Token::new(String::from("first"), TokenKind::Identifier),
                Token::new(String::from("second"), TokenKind::Identifier),
            ],
            body: Sexp::List(vec![
                Sexp::Atom(Token::new(String::from("+"), TokenKind::Identifier)),
                Sexp::Atom(Token::new(String::from("first"), TokenKind::Identifier)),
                Sexp::Atom(Token::new(String::from("second"), TokenKind::Identifier)),
            ]),
        },
    );

    match parser.parse() {
        Ok(expr) => match interpreter.evaluate(&expr) {
            Ok(value) => assert_eq!(value, MankaiObject::Number((3.0f64).to_bits())),
            Err(err) => panic!("{}", err.message),
        },
        Err(err) => panic!("{}", err.message),
    }
}
