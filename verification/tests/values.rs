//! Values, and the order of the numbers held against the machine's doubles.
use lox_ast::ast::FunctionStmt;
use lox_ast::error::LoxResult;
use lox_ast::number::{is_number_nan, number_equal, number_less, number_less_eq, number_negated};
use lox_ast::object::{Callable, LoxFunction, NativeClock, Object, Operation, Outcome};
use lox_ast::tokens::{Literal, Token, TokenType};

fn samples() -> Vec<f64> {
    vec![
        0.0,
        -0.0,
        1.0,
        -1.0,
        0.5,
        -0.5,
        1.5,
        7.23,
        -123.5,
        f64::MIN_POSITIVE,
        -f64::MIN_POSITIVE,
        5e-324,
        -5e-324,
        f64::MAX,
        f64::MIN,
        f64::INFINITY,
        f64::NEG_INFINITY,
        f64::NAN,
        -f64::NAN,
        f64::from_bits(0x7FF0_0000_0000_0001),
        f64::from_bits(0xFFFF_FFFF_FFFF_FFFF),
    ]
}

#[test]
fn order_of_numbers_is_that_of_doubles() {
    for a in samples() {
        assert_eq!(is_number_nan(a.to_bits()), a.is_nan(), "{a}");
        assert_eq!(f64::from_bits(number_negated(a.to_bits())).to_bits(), (-a).to_bits(), "{a}");
        for b in samples() {
            let (x, y) = (a.to_bits(), b.to_bits());
            assert_eq!(number_less(x, y), a < b, "{a} < {b}");
            assert_eq!(number_less_eq(x, y), a <= b, "{a} <= {b}");
            assert_eq!(number_equal(x, y), a == b, "{a} == {b}");
        }
    }
}

#[test]
fn exact_bits_of_some_comparisons() {
    assert!(number_less(0x3FF0_0000_0000_0000, 0x4000_0000_0000_0000)); // 1 < 2
    assert!(number_less(0xBFF0_0000_0000_0000, 0x0000_0000_0000_0000)); // -1 < 0
    assert!(!number_less(0x8000_0000_0000_0000, 0x0000_0000_0000_0000)); // -0 < 0
    assert!(number_equal(0x8000_0000_0000_0000, 0x0000_0000_0000_0000)); // -0 == 0
    assert!(!number_equal(0x7FF8_0000_0000_0000, 0x7FF8_0000_0000_0000)); // nan == nan
    assert_eq!(number_negated(0x3FF0_0000_0000_0000), 0xBFF0_0000_0000_0000); // -(1)
}

fn num(value: f64) -> Object<'static> {
    Object::Num(value.to_bits())
}

fn text(value: &str) -> Object<'static> {
    Object::Str(value.to_string())
}

fn every_kind() -> Vec<Object<'static>> {
    vec![
        num(1.0),
        text("a"),
        Object::Bool(true),
        Object::Nil,
        Object::Func(Callable::Native(NativeClock)),
    ]
}

#[test]
fn comparisons_are_for_two_numbers() {
    assert_eq!(num(15.0).greater(num(10.0)), Object::Bool(true));
    assert_eq!(num(10.0).greater(num(15.0)), Object::Bool(false));
    assert_eq!(num(15.0).greater_eq(num(15.0)), Object::Bool(true));
    assert_eq!(num(5.0).less(num(7.0)), Object::Bool(true));
    assert_eq!(num(20.0).less_eq(num(20.8)), Object::Bool(true));
    assert_eq!(num(21.0).less_eq(num(20.8)), Object::Bool(false));
    for left in every_kind() {
        for right in every_kind() {
            if matches!((&left, &right), (Object::Num(_), Object::Num(_))) {
                continue;
            }
            assert_eq!(left.greater(right.clone()), Object::ComparisonError);
            assert_eq!(left.greater_eq(right.clone()), Object::ComparisonError);
            assert_eq!(left.less(right.clone()), Object::ComparisonError);
            assert_eq!(left.less_eq(right.clone()), Object::ComparisonError);
        }
    }
}

#[test]
fn equality_by_kind() {
    assert_eq!(num(7.0).eq(num(7.0)), Object::Bool(true));
    assert_eq!(num(7.23).eq(num(7.0)), Object::Bool(false));
    assert_eq!(num(7.23).neq(num(7.0)), Object::Bool(true));
    assert_eq!(text("Hello").eq(text("Hello")), Object::Bool(true));
    assert_eq!(text("Hello").neq(text("Hello World")), Object::Bool(true));
    assert_eq!(Object::Bool(true).eq(Object::Bool(false)), Object::Bool(false));
    assert_eq!(Object::Bool(true).neq(Object::Bool(false)), Object::Bool(true));
    assert_eq!(Object::Nil.eq(Object::Nil), Object::Bool(true));
    assert_eq!(Object::Nil.neq(Object::Nil), Object::Bool(false));
    for other in every_kind() {
        if other != Object::Nil {
            assert_eq!(Object::Nil.eq(other.clone()), Object::Bool(false));
            assert_eq!(other.eq(Object::Nil), Object::Bool(false));
            assert_eq!(Object::Nil.neq(other.clone()), Object::Bool(true));
            assert_eq!(other.neq(Object::Nil), Object::Bool(true));
        }
    }
    assert_eq!(num(1.0).eq(text("1")), Object::ComparisonError);
    assert_eq!(text("1").neq(num(1.0)), Object::ComparisonError);
    assert_eq!(Object::Bool(true).eq(num(1.0)), Object::ComparisonError);
    let clock = Object::Func(Callable::Native(NativeClock));
    assert_eq!(clock.eq(clock.clone()), Object::ComparisonError);
}

#[test]
fn truthiness() {
    assert!(!Object::Nil.is_truthy());
    assert!(!Object::Bool(false).is_truthy());
    assert!(Object::Bool(true).is_truthy());
    assert!(num(0.0).is_truthy());
    assert!(text("").is_truthy());
    assert!(Object::Func(Callable::Native(NativeClock)).is_truthy());
}

#[test]
fn arithmetic_is_asked_of_the_host() {
    assert_eq!(
        num(15.0).arithmetic(Operation::Subtract, num(7.0)),
        Outcome::Number {
            operation: Operation::Subtract,
            left: 15.0f64.to_bits(),
            right: 7.0f64.to_bits()
        }
    );
    assert_eq!(
        num(1.0).add(num(2.0)),
        Outcome::Number { operation: Operation::Add, left: 1.0f64.to_bits(), right: 2.0f64.to_bits() }
    );
    assert_eq!(text("a").add(text("b")), Outcome::Value(text("ab")));
    assert_eq!(
        num(1.0).add(text("x")),
        Outcome::Text { number: 1.0f64.to_bits(), text: "x".to_string(), number_first: true }
    );
    assert_eq!(
        text("x").add(num(1.0)),
        Outcome::Text { number: 1.0f64.to_bits(), text: "x".to_string(), number_first: false }
    );
    assert_eq!(Object::Bool(true).add(num(1.0)), Outcome::Value(Object::ArithmeticError));
    assert_eq!(Object::Nil.add(text("a")), Outcome::Value(Object::ArithmeticError));
    for operation in [Operation::Subtract, Operation::Multiply, Operation::Divide] {
        assert_eq!(
            Object::Bool(true).arithmetic(operation, num(1.0)),
            Outcome::Value(Object::ArithmeticError)
        );
        assert_eq!(text("a").arithmetic(operation, text("b")), Outcome::Value(Object::ArithmeticError));
    }
}

#[test]
fn negation_and_text() {
    assert_eq!(num(123.5).negate(), num(-123.5));
    assert_eq!(text("a").negate(), Object::Nil);
    assert_eq!(Object::Nil.to_text(), Some("nil".to_string()));
    assert_eq!(Object::Bool(true).to_text(), Some("true".to_string()));
    assert_eq!(Object::Bool(false).to_text(), Some("false".to_string()));
    assert_eq!(text("a b").to_text(), Some("a b".to_string()));
    assert_eq!(num(1.0).to_text(), None);
    assert_eq!(
        Object::Func(Callable::Native(NativeClock)).to_text(),
        Some("<fn clock>".to_string())
    );
}

#[test]
fn functions_have_a_name_and_an_arity() {
    let declaration = FunctionStmt {
        name: Token::new(TokenType::Identifier, "add".to_string(), None, 1),
        params: vec![
            Token::new(TokenType::Identifier, "a".to_string(), None, 1),
            Token::new(TokenType::Identifier, "b".to_string(), None, 1),
        ],
        body: Vec::new(),
    };
    let function = LoxFunction::new(&declaration, 3);
    assert_eq!(function.arity(), 2);
    assert_eq!(function.to_string(), "add");
    assert_eq!(function.closure, 3);
    let callable = Callable::Function(function);
    assert_eq!(callable.arity(), 2);
    assert_eq!(callable.to_string(), "add");
    assert_eq!(Object::Func(callable).to_text(), Some("<fn add>".to_string()));
    assert_eq!(NativeClock.arity(), 0);
    assert_eq!(NativeClock.to_string(), "clock");
    assert_eq!(Callable::Native(NativeClock).arity(), 0);
}

#[test]
fn tokens_and_errors() {
    let token = Token::new(TokenType::Number, "1.5".to_string(), Some(Literal::Number("1.5".to_string())), 4);
    assert!(token.is(TokenType::Number));
    assert!(!token.is(TokenType::String));
    assert_eq!(token.token_type(), TokenType::Number);
    assert_eq!(token.clone(), token);
    assert_eq!(Token::eof(9), Token::new(TokenType::Eof, String::new(), None, 9));

    assert_eq!(
        LoxResult::parse_error(&token, "Expect expression").to_string(),
        "[line 4] ParseError: at '1.5' Expect expression"
    );
    assert_eq!(
        LoxResult::new_runtime_error(token.clone(), "Illegal expression".to_string()).to_string(),
        "[line 4] RuntimeError at '1.5': Illegal expression"
    );
    assert_eq!(LoxResult::error(120, "Unreachable error").to_string(), "[line 120] Error: Unreachable error");
    assert_eq!(LoxResult::new_lex_error(0, "Unterminated String").to_string(), "[line 0] LexError: Unterminated String");
    assert_eq!(LoxResult::new_system_error("gone").to_string(), "SystemError: gone");
    assert_eq!(
        LoxResult::error(18446744073709551615, "x").to_string(),
        "[line 18446744073709551615] Error: x"
    );
    let error = LoxResult::parse_error(&token, "m");
    assert_eq!(error.clone(), error);
    assert_eq!(error, LoxResult::ParseError { token, message: "m".to_string() });
}
