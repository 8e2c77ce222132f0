//! Single expressions and statements, built by hand and run in a new
//! interpreter.
use lox_ast::ast::{BinaryExpr, Expr, LiteralExpr, Stmt, UnaryExpr, VarStmt, VariableExpr};
use lox_ast::error::LoxResult;
use lox_ast::interpreter::{Action, Event, Interpreter};
use lox_ast::object::{Object, Operation};
use lox_ast::tokens::{Literal, Token, TokenType};

/// Does what a step asks, as a host would.
fn answer(action: Action, output: &mut Vec<String>) -> Event {
    match action {
        Action::Print(text) => {
            output.push(text);
            Event::Resume
        }
        Action::Decode(text) => Event::Number(text.parse::<f64>().unwrap().to_bits()),
        Action::Arithmetic { operation, left, right } => {
            let (l, r) = (f64::from_bits(left), f64::from_bits(right));
            let result = match operation {
                Operation::Add => l + r,
                Operation::Subtract => l - r,
                Operation::Multiply => l * r,
                Operation::Divide => l / r,
            };
            Event::Number(result.to_bits())
        }
        Action::Format(bits) => Event::Text(format!("{}", f64::from_bits(bits))),
        Action::Clock => Event::Number(1.5f64.to_bits()),
        _ => Event::Resume,
    }
}

/// Steps until the run ends, and gives the value or the error it ended with.
fn finish<'a>(interpreter: &mut Interpreter<'a>) -> Result<Object<'a>, LoxResult> {
    let mut output = Vec::new();
    let mut event = Event::Resume;
    for _ in 0..100_000 {
        match interpreter.step(event) {
            Action::Finished => return Ok(Object::Nil),
            Action::Value(value) => return Ok(value),
            Action::Failed(error) => return Err(error),
            action => event = answer(action, &mut output),
        }
    }
    panic!("the run did not end");
}

/// The value of an expression in a new interpreter.
fn evaluate(expr: Expr) -> Result<Object<'static>, LoxResult> {
    let expr: &'static Expr = Box::leak(Box::new(expr));
    let mut interpreter = Interpreter::new();
    interpreter.evaluate_expression(expr);
    finish(&mut interpreter)
}

fn visit_unary_expr(expr: UnaryExpr) -> Result<Object<'static>, LoxResult> {
    evaluate(Expr::Unary(expr))
}

fn visit_binary_expr(expr: BinaryExpr) -> Result<Object<'static>, LoxResult> {
    evaluate(Expr::Binary(expr))
}

/// Executes a variable declaration in `interpreter`.
fn visit_var_stmt(interpreter: &mut Interpreter<'static>, stmt: VarStmt) -> Result<(), LoxResult> {
    let statements: &'static Vec<Stmt> = Box::leak(Box::new(vec![Stmt::Var(stmt)]));
    interpreter.interpret(statements);
    finish(interpreter).map(|_| ())
}

fn visit_variable_expr(
    interpreter: &mut Interpreter<'static>,
    expr: VariableExpr,
) -> Result<Object<'static>, LoxResult> {
    let expr: &'static Expr = Box::leak(Box::new(Expr::Variable(expr)));
    interpreter.evaluate_expression(expr);
    finish(interpreter)
}

/// The literal of a number.
fn num(value: f64) -> Literal {
    Literal::Number(format!("{value}"))
}

/// The value of a number.
fn number(value: f64) -> Object<'static> {
    Object::Num(value.to_bits())
}

fn make_literal(value: Literal) -> Box<Expr> {
    Box::new(Expr::Literal(LiteralExpr { value }))
}

/// Tests unary minus (-15) or (-value)
#[test]
fn interpreter_test_unary_minus() {
    let unary_expr = UnaryExpr {
        operator: Token::new(TokenType::Minus, "-".to_string(), None, 1),
        right: make_literal(num(123.5)),
    };

    let res = visit_unary_expr(unary_expr).unwrap();

    assert_eq!(res, number(-123.5));
}

/// Tests unary not (!true)
#[test]
fn interpreter_test_unary_bang() {
    let unary_expr = UnaryExpr {
        operator: Token::new(TokenType::Bang, "!".to_string(), None, 1),
        right: make_literal(Literal::Bool(false)),
    };

    let res = visit_unary_expr(unary_expr).unwrap();

    assert_eq!(res, Object::Bool(true));
}

/// Tests binary subtraction (15 - 7)
#[test]
fn interpreter_test_binary_minus() {
    let binary_expr = BinaryExpr {
        left: make_literal(num(15.0)),
        operator: Token::new(TokenType::Minus, "-".to_string(), None, 0),
        right: make_literal(num(7.0)),
    };

    let res = visit_binary_expr(binary_expr).unwrap();

    assert_eq!(res, number(8.0));
}

/// Test binary division (21 / 7)
#[test]
fn interpreter_test_binary_slash() {
    let binary_expr = BinaryExpr {
        left: make_literal(num(21.0)),
        operator: Token::new(TokenType::Slash, "/".to_string(), None, 0),
        right: make_literal(num(7.0)),
    };

    let res = visit_binary_expr(binary_expr).unwrap();

    assert_eq!(res, number(3.0));
}

/// Test binary multiplication (15 * 7)
#[test]
fn interpreter_test_binary_star() {
    let binary_expr = BinaryExpr {
        left: make_literal(num(15.0)),
        operator: Token::new(TokenType::Star, "*".to_string(), None, 0),
        right: make_literal(num(7.0)),
    };

    let res = visit_binary_expr(binary_expr).unwrap();

    assert_eq!(res, number(105.0));
}

/// Test binary addition (21 + 7)
#[test]
fn interpreter_test_binary_plus_num() {
    let binary_expr = BinaryExpr {
        left: make_literal(num(21.0)),
        operator: Token::new(TokenType::Plus, "+".to_string(), None, 0),
        right: make_literal(num(7.0)),
    };

    let res = visit_binary_expr(binary_expr).unwrap();

    assert_eq!(res, number(28.0));
}

/// Test binary string concatenation ("Hello, " + "World!")
#[test]
fn interpreter_test_binary_plus_str() {
    let binary_expr = BinaryExpr {
        left: make_literal(Literal::Str("Hello, ".to_string())),
        operator: Token::new(TokenType::Plus, "+".to_string(), None, 0),
        right: make_literal(Literal::Str("World!".to_string())),
    };

    let res = visit_binary_expr(binary_expr).unwrap();

    assert_eq!(res, Object::Str("Hello, World!".to_string()));
}

/// Test that an arithmetic error is thrown when trying to do operations on
/// differing types
#[test]
fn interpreter_test_arithmetic_error_minus() {
    let binary_expr = BinaryExpr {
        left: make_literal(num(15.0)),
        operator: Token::new(TokenType::Minus, "-".to_string(), None, 0),
        right: make_literal(Literal::Bool(true)),
    };

    let res = visit_binary_expr(binary_expr);

    assert!(res.is_err());
}

/// Test that a comparison error is thrown when trying to compare differing
/// types
#[test]
fn interpreter_test_error_cmp() {
    let binary_expr = BinaryExpr {
        left: make_literal(num(15.0)),
        operator: Token::new(TokenType::Greater, ">".to_string(), None, 0),
        right: make_literal(Literal::Bool(true)),
    };

    let res = visit_binary_expr(binary_expr);

    assert!(res.is_err());
}

/// Test binary greater-than (15 > 10)
#[test]
fn interpreter_test_binary_greater_than_true() {
    let binary_expr = BinaryExpr {
        left: make_literal(num(15.0)),
        operator: Token::new(TokenType::Greater, ">".to_string(), None, 0),
        right: make_literal(num(10.0)),
    };

    let res = visit_binary_expr(binary_expr).unwrap();

    assert_eq!(res, Object::Bool(true));
}

/// Test binary greater-than or equal-to (15 >= 15)
#[test]
fn interpreter_test_binary_greater_than_equal_eq() {
    let binary_expr = BinaryExpr {
        left: make_literal(num(15.0)),
        operator: Token::new(TokenType::GreaterEqual, ">=".to_string(), None, 0),
        right: make_literal(num(15.0)),
    };

    let res = visit_binary_expr(binary_expr).unwrap();

    assert_eq!(res, Object::Bool(true));
}

/// Test binary greater-than or equal-to (15 >= 7)
#[test]
fn interpreter_test_binary_greater_than_equal_neq() {
    let binary_expr = BinaryExpr {
        left: make_literal(num(15.0)),
        operator: Token::new(TokenType::GreaterEqual, ">=".to_string(), None, 0),
        right: make_literal(num(7.0)),
    };

    let res = visit_binary_expr(binary_expr).unwrap();

    assert_eq!(res, Object::Bool(true));
}

/// Test binary less-than (5 < 7)
#[test]
fn interpreter_test_binary_less_than() {
    let binary_expr = BinaryExpr {
        left: make_literal(num(5.0)),
        operator: Token::new(TokenType::Less, "<".to_string(), None, 0),
        right: make_literal(num(7.0)),
    };

    let res = visit_binary_expr(binary_expr).unwrap();

    assert_eq!(res, Object::Bool(true));
}

/// Test binary less-than or equal-to (15 <= 15)
#[test]
fn interpreter_test_binary_less_than_equal_eq() {
    let binary_expr = BinaryExpr {
        left: make_literal(num(15.0)),
        operator: Token::new(TokenType::LessEqual, "<=".to_string(), None, 0),
        right: make_literal(num(15.0)),
    };

    let res = visit_binary_expr(binary_expr).unwrap();

    assert_eq!(res, Object::Bool(true));
}

/// Test binary less-than or equal-to (20 <= 20.8)
#[test]
fn interpreter_test_binary_less_than_equal_neq() {
    let binary_expr = BinaryExpr {
        left: make_literal(num(20.0)),
        operator: Token::new(TokenType::LessEqual, "<=".to_string(), None, 0),
        right: make_literal(num(20.8)),
    };

    let res = visit_binary_expr(binary_expr).unwrap();

    assert_eq!(res, Object::Bool(true));
}

/// Test binary greater-than (10 > 15)
#[test]
fn interpreter_test_binary_greater_than_false() {
    let binary_expr = BinaryExpr {
        left: make_literal(num(10.0)),
        operator: Token::new(TokenType::Greater, ">".to_string(), None, 0),
        right: make_literal(num(15.0)),
    };

    let res = visit_binary_expr(binary_expr).unwrap();

    assert_eq!(res, Object::Bool(false));
}

/// Test binary equals (7 == 7)
#[test]
fn interpreter_test_binary_equal_eq() {
    let binary_expr = BinaryExpr {
        left: make_literal(num(7.0)),
        operator: Token::new(TokenType::Equal, "==".to_string(), None, 0),
        right: make_literal(num(7.0)),
    };

    let res = visit_binary_expr(binary_expr).unwrap();

    assert_eq!(res, Object::Bool(true));
}

/// Test binary equals (7.23 == 7.0)
#[test]
fn interpreter_test_binary_equal_neq() {
    let binary_expr = BinaryExpr {
        left: make_literal(num(7.23)),
        operator: Token::new(TokenType::Equal, "==".to_string(), None, 0),
        right: make_literal(num(7.0)),
    };

    let res = visit_binary_expr(binary_expr).unwrap();

    assert_eq!(res, Object::Bool(false));
}

/// Test binary not-equals (7.23 != 7)
#[test]
fn interpreter_test_binary_bang_equal_neq() {
    let binary_expr = BinaryExpr {
        left: make_literal(num(7.23)),
        operator: Token::new(TokenType::BangEqual, "!=".to_string(), None, 0),
        right: make_literal(num(7.0)),
    };

    let res = visit_binary_expr(binary_expr).unwrap();

    assert_eq!(res, Object::Bool(true));
}

/// Test binary not-equals (7 != 7)
#[test]
fn interpreter_test_binary_bang_equal_eq() {
    let binary_expr = BinaryExpr {
        left: make_literal(num(7.0)),
        operator: Token::new(TokenType::BangEqual, "!=".to_string(), None, 0),
        right: make_literal(num(7.0)),
    };

    let res = visit_binary_expr(binary_expr).unwrap();

    assert_eq!(res, Object::Bool(false));
}

/// Test binary equals ("Hello" == "Hello")
#[test]
fn interpreter_test_binary_equal_str() {
    let binary_expr = BinaryExpr {
        left: make_literal(Literal::Str("Hello".to_string())),
        operator: Token::new(TokenType::Equal, "==".to_string(), None, 0),
        right: make_literal(Literal::Str("Hello".to_string())),
    };

    let res = visit_binary_expr(binary_expr).unwrap();

    assert_eq!(res, Object::Bool(true));
}

/// Test binary doesn't equal ("Hello" != "Hello World")
#[test]
fn interpreter_test_binary_bang_equal_str() {
    let binary_expr = BinaryExpr {
        left: make_literal(Literal::Str("Hello".to_string())),
        operator: Token::new(TokenType::BangEqual, "!=".to_string(), None, 0),
        right: make_literal(Literal::Str("Hello World".to_string())),
    };

    let res = visit_binary_expr(binary_expr).unwrap();

    assert_eq!(res, Object::Bool(true));
}

/// Test binary equals (nil == nil)
#[test]
fn interpreter_test_binary_equal_nil_eq() {
    let binary_expr = BinaryExpr {
        left: make_literal(Literal::Nil),
        operator: Token::new(TokenType::Equal, "==".to_string(), None, 0),
        right: make_literal(Literal::Nil),
    };

    let res = visit_binary_expr(binary_expr).unwrap();

    assert_eq!(res, Object::Bool(true));
}

/// Test binary equals (nil == 15)
#[test]
fn interpreter_test_binary_equal_nil_neq() {
    let binary_expr = BinaryExpr {
        left: make_literal(Literal::Nil),
        operator: Token::new(TokenType::Equal, "==".to_string(), None, 0),
        right: make_literal(num(15.0)),
    };

    let res = visit_binary_expr(binary_expr).unwrap();

    assert_eq!(res, Object::Bool(false));
}

#[test]
fn interpreter_test_defined_var_stmt() {
    let mut i = Interpreter::new();
    let name = Token::new(TokenType::Identifier, "foo".to_string(), None, 0);
    let var_stmt = VarStmt { name: name.clone(), initializer: Some(*make_literal(num(23.0))) };
    visit_var_stmt(&mut i, var_stmt).unwrap();

    assert_eq!(i.get(&name).unwrap(), number(23.0))
}

#[test]
fn interpreter_test_undefined_var_stmt() {
    let mut i = Interpreter::new();
    let name = Token::new(TokenType::Identifier, "foo".to_string(), None, 0);
    let var_stmt = VarStmt { name: name.clone(), initializer: None };
    visit_var_stmt(&mut i, var_stmt).unwrap();

    assert_eq!(i.get(&name).unwrap(), Object::Nil)
}

#[test]
fn interpreter_test_defined_var_expr() {
    let mut i = Interpreter::new();
    let name = Token::new(TokenType::Identifier, "foo".to_string(), None, 0);
    let var_stmt = VarStmt { name: name.clone(), initializer: Some(*make_literal(num(23.0))) };
    visit_var_stmt(&mut i, var_stmt).unwrap();

    let var_expr = VariableExpr { name };

    assert_eq!(visit_variable_expr(&mut i, var_expr).unwrap(), number(23.0))
}

#[test]
fn interpreter_test_undefined_var_expr() {
    let mut i = Interpreter::new();
    let name = Token::new(TokenType::Identifier, "foo".to_string(), None, 0);
    let var_expr = VariableExpr { name };

    assert!(visit_variable_expr(&mut i, var_expr).is_err())
}
