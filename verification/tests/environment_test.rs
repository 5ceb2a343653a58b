use mankailib::Environment;
use mankailib::MankaiObject;
use mankailib::Token;
use mankailib::TokenKind;

#[test]
fn define_and_get_bindings() {
    let mut environment = Environment::new();

    // Define a couple of bindings.
    environment.define(
        &Token::new(String::from("foo"), TokenKind::Identifier),
        MankaiObject::Number((6.0f64).to_bits()),
    );

    environment.define(
        &Token::new(String::from("bar"), TokenKind::Identifier),
        MankaiObject::String(String::from("baz")),
    );

    // Try to get them out and test runtime errors.
    match environment.get(&Token::new(String::from("foo"), TokenKind::Identifier)) {
        Ok(value) => assert_eq!(value, MankaiObject::Number((6.0f64).to_bits())),
        Err(err) => panic!("{}", err.message),
    }

    match environment.get(&Token::new(String::from("bar"), TokenKind::Identifier)) {
        Ok(value) => assert_eq!(value, MankaiObject::String(String::from("baz"))),
        Err(err) => panic!("{}", err.message),
    }

    if let Ok(_) = environment.get(&Token::new(String::from("oof"), TokenKind::Identifier)) {
        panic!("found nonexistent binding");
    }
}

#[test]
fn layers() {
    let mut environment = Environment::new();

    // Put something in the global scope.
    environment.define(
        &Token::new(String::from("foo"), TokenKind::Identifier),
        MankaiObject::Number((6.0f64).to_bits()),
    );

    environment.define(
        &Token::new(String::from("bar"), TokenKind::Identifier),
        MankaiObject::String(String::from("baz")),
    );

    // Extend the environment and define something again.
    environment.extend();

    environment.define(
        &Token::new(String::from("foo"), TokenKind::Identifier),
        MankaiObject::Number((12.0f64).to_bits()),
    );

    environment.define(
        &Token::new(String::from("baz"), TokenKind::Identifier),
        MankaiObject::Number((0.0f64).to_bits()),
    );

    // Check that the extended environment acts properly.
    match environment.get(&Token::new(String::from("foo"), TokenKind::Identifier)) {
        Ok(value) => assert_eq!(value, MankaiObject::Number((12.0f64).to_bits())),
        Err(err) => panic!("{}", err.message),
    }

    match environment.get(&Token::new(String::from("bar"), TokenKind::Identifier)) {
        Ok(value) => assert_eq!(value, MankaiObject::String(String::from("baz"))),
        Err(err) => panic!("{}", err.message),
    }

    match environment.get(&Token::new(String::from("baz"), TokenKind::Identifier)) {
        Ok(value) => assert_eq!(value, MankaiObject::Number((0.0f64).to_bits())),
        Err(err) => panic!("{}", err.message),
    }

    // Restrict the environment.
    environment.restrict();

    // Check that the restricted environment acts properly.
    match environment.get(&Token::new(String::from("foo"), TokenKind::Identifier)) {
        Ok(value) => assert_eq!(value, MankaiObject::Number((6.0f64).to_bits())),
        Err(err) => panic!("{}", err.message),
    }

    match environment.get(&Token::new(String::from("bar"), TokenKind::Identifier)) {
        Ok(value) => assert_eq!(value, MankaiObject::String(String::from("baz"))),
        Err(err) => panic!("{}", err.message),
    }

    // A binding made only in the inner layer is unbound again.
    if let Ok(_) = environment.get(&Token::new(String::from("baz"), TokenKind::Identifier)) {
        panic!("found binding that the restrict should have removed");
    }
}
