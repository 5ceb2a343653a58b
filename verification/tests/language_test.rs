use mankailib::Interpreter;
use mankailib::Lexer;
use mankailib::MankaiObject;
use mankailib::Parser;
use mankailib::RuntimeError;
use mankailib::Sexp;

fn eval_source(interpreter: &mut Interpreter, source: &str) -> Result<MankaiObject, RuntimeError> {
    let mut lexer = Lexer::new(String::from(source));
    if let Err(err) = lexer.scan() {
        panic!("lexing failed: {}", err.message);
    }
    let mut parser = Parser::new(lexer.tokens);
    match parser.parse() {
        Ok(sexp) => interpreter.evaluate(&sexp),
        Err(err) => panic!("parsing failed: {}", err.message),
    }
}

fn eval_ok(interpreter: &mut Interpreter, source: &str) -> MankaiObject {
    match eval_source(interpreter, source) {
        Ok(value) => value,
        Err(err) => panic!("evaluation of {} failed: {}", source, err.message),
    }
}

fn eval_err(interpreter: &mut Interpreter, source: &str) -> String {
    match eval_source(interpreter, source) {
        Ok(value) => panic!("evaluation of {} succeeded with {}", source, value.to_string()),
        Err(err) => err.message,
    }
}

fn number(x: f64) -> MankaiObject {
    MankaiObject::Number(x.to_bits())
}

#[test]
fn literal_round_trip() {
    let mut interpreter = Interpreter::new();
    assert_eq!(eval_ok(&mut interpreter, "5"), number(5.0));
    assert_eq!(eval_ok(&mut interpreter, "0"), number(0.0));
    assert_eq!(eval_ok(&mut interpreter, "64.333"), number(64.333));
    assert_eq!(eval_ok(&mut interpreter, "12.0"), number(12.0));
}

#[test]
fn if_short_circuit() {
    let mut interpreter = Interpreter::new();
    // The untaken branch holds an unbound identifier; it must never be
    // evaluated.
    assert_eq!(
        eval_ok(&mut interpreter, "(if! true \"a\" boom)"),
        MankaiObject::String(String::from("a"))
    );
    assert_eq!(
        eval_ok(&mut interpreter, "(if! false boom \"b\")"),
        MankaiObject::String(String::from("b"))
    );
    // A non-boolean condition is rejected.
    assert_eq!(
        eval_err(&mut interpreter, "(if! 1 2 3)"),
        "1st argument to 'if!' must evaluate to a boolean!"
    );
}

#[test]
fn lambda_construction_and_arity() {
    let mut interpreter = Interpreter::new();
    assert_eq!(eval_ok(&mut interpreter, "((lambda! (x y) (+ x y)) 1 2)"), number(3.0));
    assert_eq!(
        eval_err(&mut interpreter, "((lambda! (x y) (+ x y)) 1)"),
        "found 1 arguments but 'anonymous function' requires 2!"
    );
    assert_eq!(
        eval_err(&mut interpreter, "((lambda! (x y) (+ x y)) 1 2 3)"),
        "found 3 arguments but 'anonymous function' requires 2!"
    );
}

#[test]
fn defun_names_the_function() {
    let mut interpreter = Interpreter::new();
    eval_ok(&mut interpreter, "(defun! add2 (x y) (+ x y))");
    assert_eq!(eval_ok(&mut interpreter, "(add2 1 2)"), number(3.0));
    assert_eq!(
        eval_err(&mut interpreter, "(add2 1)"),
        "found 1 arguments but 'add2' requires 2!"
    );
    assert_eq!(
        eval_err(&mut interpreter, "(defun! f 3 x)"),
        "2nd argument to 'defun!' must be a list of identifiers!"
    );
    assert_eq!(
        eval_err(&mut interpreter, "(defun! f (x 3) x)"),
        "2th argument is not an identifier!"
    );
}

#[test]
fn car_cdr_and_the_empty_list() {
    let mut interpreter = Interpreter::new();
    assert_eq!(eval_ok(&mut interpreter, "(car (list 1 2 3))"), number(1.0));
    assert_eq!(
        eval_ok(&mut interpreter, "(cdr (list 1 2 3))"),
        MankaiObject::List(vec![number(2.0), number(3.0)])
    );
    assert_eq!(
        eval_err(&mut interpreter, "(car (list))"),
        "can't apply 'car' to the empty list!"
    );
    assert_eq!(
        eval_err(&mut interpreter, "(cdr (list))"),
        "can't apply 'cdr' to the empty list!"
    );
    assert_eq!(eval_err(&mut interpreter, "(car 1)"), "1st argument to 'car' must be a list!");
}

#[test]
fn division_by_zero_and_reciprocal() {
    let mut interpreter = Interpreter::new();
    assert_eq!(
        eval_err(&mut interpreter, "(/ 1 0)"),
        "can't divide by zero (2-th argument to '/' is zero)!"
    );
    assert_eq!(
        eval_err(&mut interpreter, "(/ 6 2 0)"),
        "can't divide by zero (3-th argument to '/' is zero)!"
    );
    assert_eq!(eval_ok(&mut interpreter, "(/ 4)"), number(0.25));
    assert_eq!(eval_ok(&mut interpreter, "(/ 8 2 2)"), number(2.0));
}

#[test]
fn arithmetic_folds() {
    let mut interpreter = Interpreter::new();
    assert_eq!(eval_ok(&mut interpreter, "(+ 1 2 3)"), number(6.0));
    assert_eq!(eval_ok(&mut interpreter, "(- 4)"), number(-4.0));
    assert_eq!(eval_ok(&mut interpreter, "(- 10 1 2)"), number(7.0));
    assert_eq!(eval_ok(&mut interpreter, "(* 2 3 4)"), number(24.0));
    assert_eq!(eval_ok(&mut interpreter, "(+ 0.5 0.25)"), number(0.75));
    assert_eq!(eval_err(&mut interpreter, "(+)"), "'+' requires at least one argument!");
    assert_eq!(
        eval_err(&mut interpreter, "(+ 1 \"x\")"),
        "2-th argument to '+' must be a number!"
    );
}

#[test]
fn comparison_chains() {
    let mut interpreter = Interpreter::new();
    assert_eq!(eval_ok(&mut interpreter, "(= 1 1 1)"), MankaiObject::Bool(true));
    assert_eq!(eval_ok(&mut interpreter, "(= 1 2)"), MankaiObject::Bool(false));
    assert_eq!(eval_ok(&mut interpreter, "(= 1)"), MankaiObject::Bool(true));
    assert_eq!(eval_ok(&mut interpreter, "(< 1 2 3)"), MankaiObject::Bool(true));
    assert_eq!(eval_ok(&mut interpreter, "(< 1 3 2)"), MankaiObject::Bool(false));
    assert_eq!(eval_ok(&mut interpreter, "(> 3 2 1)"), MankaiObject::Bool(true));
    assert_eq!(eval_ok(&mut interpreter, "(> 3 1 2)"), MankaiObject::Bool(false));
    assert_eq!(
        eval_err(&mut interpreter, "(= 1 true)"),
        "2-th argument to '=' must be a number!"
    );
}

#[test]
fn boolean_natives() {
    let mut interpreter = Interpreter::new();
    assert_eq!(eval_ok(&mut interpreter, "(and true true)"), MankaiObject::Bool(true));
    // `and` returns at the first false without looking further.
    assert_eq!(eval_ok(&mut interpreter, "(and true false 3)"), MankaiObject::Bool(false));
    assert_eq!(eval_ok(&mut interpreter, "(or false true)"), MankaiObject::Bool(true));
    assert_eq!(eval_ok(&mut interpreter, "(or false false)"), MankaiObject::Bool(false));
    assert_eq!(eval_ok(&mut interpreter, "(not false)"), MankaiObject::Bool(true));
    assert_eq!(
        eval_err(&mut interpreter, "(not 3)"),
        "1-th argument to 'not' must be a boolean!"
    );
    assert_eq!(
        eval_err(&mut interpreter, "(and true 3)"),
        "2-th argument to 'and' must be a boolean!"
    );
}

#[test]
fn type_predicates() {
    let mut interpreter = Interpreter::new();
    assert_eq!(eval_ok(&mut interpreter, "(bool? true)"), MankaiObject::Bool(true));
    assert_eq!(eval_ok(&mut interpreter, "(bool? 1)"), MankaiObject::Bool(false));
    assert_eq!(eval_ok(&mut interpreter, "(number? 1)"), MankaiObject::Bool(true));
    assert_eq!(eval_ok(&mut interpreter, "(number? \"a\")"), MankaiObject::Bool(false));
    assert_eq!(eval_ok(&mut interpreter, "(string? \"a\")"), MankaiObject::Bool(true));
    assert_eq!(eval_ok(&mut interpreter, "(list? (list))"), MankaiObject::Bool(true));
    assert_eq!(eval_ok(&mut interpreter, "(list? 1)"), MankaiObject::Bool(false));
}

#[test]
fn cons_appends_in_order() {
    let mut interpreter = Interpreter::new();
    assert_eq!(
        eval_ok(&mut interpreter, "(cons (list 1) 2 3)"),
        MankaiObject::List(vec![number(1.0), number(2.0), number(3.0)])
    );
    assert_eq!(eval_err(&mut interpreter, "(cons (list 1))"), "'cons' requires at least two arguments!");
    assert_eq!(eval_err(&mut interpreter, "(cons 1 2)"), "1st argument to 'cons' must be a list!");
}

#[test]
fn string_natives() {
    let mut interpreter = Interpreter::new();
    assert_eq!(
        eval_ok(&mut interpreter, "(string-concat \"foo\" \"bar\")"),
        MankaiObject::String(String::from("foobar"))
    );
    assert_eq!(
        eval_err(&mut interpreter, "(string-concat \"a\" 1)"),
        "2-th argument to 'string-concat' must be a string!"
    );
    // `to-string` is idempotent on strings.
    assert_eq!(
        eval_ok(&mut interpreter, "(to-string \"x\")"),
        MankaiObject::String(String::from("x"))
    );
    assert_eq!(
        eval_ok(&mut interpreter, "(to-string true)"),
        MankaiObject::String(String::from("true"))
    );
}

#[test]
fn number_rendering() {
    let mut interpreter = Interpreter::new();
    assert_eq!(
        eval_ok(&mut interpreter, "(to-string 12)"),
        MankaiObject::String(String::from("12"))
    );
    assert_eq!(
        eval_ok(&mut interpreter, "(to-string 0.25)"),
        MankaiObject::String(String::from("0.25"))
    );
}

#[test]
fn rendering_of_callables_and_lists() {
    let mut interpreter = Interpreter::new();
    assert_eq!(
        eval_ok(&mut interpreter, "(to-string (lambda! (x) x))"),
        MankaiObject::String(String::from("<user-defined function>"))
    );
    assert_eq!(
        eval_ok(&mut interpreter, "(to-string car)"),
        MankaiObject::String(String::from("<native function>"))
    );
    assert_eq!(
        eval_ok(&mut interpreter, "(to-string if!)"),
        MankaiObject::String(String::from("<special form>"))
    );
    assert_eq!(
        eval_ok(&mut interpreter, "(to-string (list 1 2))"),
        MankaiObject::String(String::from("(1 2)"))
    );
}

#[test]
fn reserved_name_guards() {
    let mut interpreter = Interpreter::new();
    assert_eq!(
        eval_err(&mut interpreter, "(define! + 3)"),
        "can't assign to '+' because the name is reserved for a native function!"
    );
    assert_eq!(
        eval_err(&mut interpreter, "(define! if! 3)"),
        "can't assign to 'if!' because the name is reserved for a special form!"
    );
    assert_eq!(
        eval_err(&mut interpreter, "(define! true 3)"),
        "can't assign to 'true' because the name is reserved for a constant!"
    );
    // The unguarded `set!` variant rebinds the same name.
    assert_eq!(eval_ok(&mut interpreter, "(set! + 3)"), number(3.0));
    // An unreserved name passes the guarded variant.
    assert_eq!(eval_ok(&mut interpreter, "(define! answer 42)"), number(42.0));
    assert_eq!(eval_ok(&mut interpreter, "answer"), number(42.0));
}

#[test]
fn dynamic_extent_binding() {
    let mut interpreter = Interpreter::new();
    // A function's free identifiers resolve at call time, not at
    // definition time.
    eval_ok(&mut interpreter, "(defun! getx (d) x)");
    assert_eq!(
        eval_err(&mut interpreter, "(getx 0)"),
        "unbound symbol 'x'"
    );
    eval_ok(&mut interpreter, "(set! x 42)");
    assert_eq!(eval_ok(&mut interpreter, "(getx 0)"), number(42.0));
}

#[test]
fn call_layers_are_released() {
    let mut interpreter = Interpreter::new();
    // A parameter binding lives only for the duration of the call.
    assert_eq!(eval_ok(&mut interpreter, "((lambda! (q) q) 5)"), number(5.0));
    assert_eq!(eval_err(&mut interpreter, "q"), "unbound symbol 'q'");
    // The layer is released on the error path too.
    eval_err(&mut interpreter, "((lambda! (w) boom) 5)");
    assert_eq!(eval_err(&mut interpreter, "w"), "unbound symbol 'w'");
}

#[test]
fn evaluation_errors() {
    let mut interpreter = Interpreter::new();
    assert_eq!(eval_err(&mut interpreter, "nope"), "unbound symbol 'nope'");
    assert_eq!(eval_err(&mut interpreter, "(1 2)"), "'1' is not callable!");
    assert_eq!(eval_err(&mut interpreter, "(set! 3 4)"), "'3' is not an identifier!");
    assert_eq!(
        eval_err(&mut interpreter, "(set! (a) 4)"),
        "expected identifier as first argument to 'set!'"
    );
    assert_eq!(eval_err(&mut interpreter, "(if! true 1)"), "'if!' requires exactly three arguments!");
}

#[test]
fn unbounded_recursion_is_reported() {
    let mut interpreter = Interpreter::new();
    eval_ok(&mut interpreter, "(defun! spin (x) (spin x))");
    assert_eq!(eval_err(&mut interpreter, "(spin 1)"), "recursion depth exceeded!");
}

#[test]
fn empty_list_is_rejected() {
    let mut interpreter = Interpreter::new();
    // The parser refuses the empty list.
    let mut lexer = Lexer::new(String::from("()"));
    lexer.scan().unwrap();
    let mut parser = Parser::new(lexer.tokens);
    assert!(parser.parse().is_err());
    // The evaluator defensively rejects one built by hand.
    let expr = Sexp::List(vec![]);
    match interpreter.evaluate(&expr) {
        Ok(_) => panic!("expected an error"),
        Err(err) => assert_eq!(err.message, "can't evaluate the empty list!"),
    }
}

#[test]
fn value_equality_of_callables() {
    let mut interpreter = Interpreter::new();
    // A function value is never equal to anything, itself included.
    let f = eval_ok(&mut interpreter, "(lambda! (x) x)");
    let g = eval_ok(&mut interpreter, "(lambda! (x) x)");
    assert!(f != g);
    assert!(f != f);
    // Plain values compare by structure.
    assert!(number(1.0) == number(1.0));
    assert!(MankaiObject::List(vec![number(1.0)]) == MankaiObject::List(vec![number(1.0)]));
}
