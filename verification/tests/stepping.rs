//! The interpreter, one step at a time.
use lox_ast::ast::{
    BinaryExpr, BlockStmt, Expr, ExpressionStmt, LiteralExpr, PrintStmt, Stmt, VarStmt,
    VariableExpr, WhileStmt,
};
use lox_ast::error::LoxResult;
use lox_ast::interpreter::{Action, Event, Interpreter};
use lox_ast::object::{Object, Operation};
use lox_ast::tokens::{Literal, Token, TokenType};

fn token(kind: TokenType, lexeme: &str) -> Token {
    Token::new(kind, lexeme.to_string(), None, 3)
}

fn number(text: &str) -> Expr {
    Expr::Literal(LiteralExpr { value: Literal::Number(text.to_string()) })
}

fn text(value: &str) -> Expr {
    Expr::Literal(LiteralExpr { value: Literal::Str(value.to_string()) })
}

fn binary(left: Expr, kind: TokenType, lexeme: &str, right: Expr) -> Expr {
    Expr::Binary(BinaryExpr {
        left: Box::new(left),
        operator: token(kind, lexeme),
        right: Box::new(right),
    })
}

/// The actions of a run of `statements` in which the host answers each
/// request with the next of `answers`.
fn actions(statements: &Vec<Stmt>, answers: Vec<Event>) -> Vec<Action<'_>> {
    let mut interpreter = Interpreter::new();
    interpreter.interpret(statements);
    let mut answers = answers.into_iter();
    let mut seen = Vec::new();
    let mut event = Event::Resume;
    for _ in 0..10_000 {
        let action = interpreter.step(event);
        event = Event::Resume;
        match action {
            Action::Continue => {}
            Action::Finished | Action::Failed(_) | Action::Value(_) => {
                assert!(interpreter.is_idle());
                seen.push(action);
                return seen;
            }
            Action::Print(_) => seen.push(action),
            _ => {
                seen.push(action);
                event = answers.next().expect("an answer for each request");
            }
        }
    }
    panic!("the run did not end");
}

#[test]
fn a_new_interpreter_is_idle() {
    let mut interpreter = Interpreter::new();
    assert!(interpreter.is_idle());
    assert_eq!(interpreter.step(Event::Resume), Action::Finished);
    assert_eq!(interpreter.step(Event::Number(1)), Action::Finished);
    assert!(interpreter.is_idle());
    assert!(interpreter.get(&token(TokenType::Identifier, "clock")).is_ok());
    assert!(interpreter.get(&token(TokenType::Identifier, "other")).is_err());
}

#[test]
fn an_empty_program_ends_at_once() {
    let statements = Vec::new();
    let mut interpreter = Interpreter::new();
    interpreter.interpret(&statements);
    assert!(!interpreter.is_idle());
    assert_eq!(interpreter.step(Event::Resume), Action::Continue);
    assert_eq!(interpreter.step(Event::Resume), Action::Finished);
    assert!(interpreter.is_idle());
}

#[test]
fn subtraction_asks_the_host_with_the_operands_in_order() {
    let statements = vec![Stmt::Print(PrintStmt {
        expression: binary(number("15"), TokenType::Minus, "-", number("7")),
    })];
    let seen = actions(
        &statements,
        vec![Event::Number(150), Event::Number(70), Event::Number(80), Event::Text("8".to_string())],
    );
    assert_eq!(
        seen,
        vec![
            Action::Decode("15".to_string()),
            Action::Decode("7".to_string()),
            Action::Arithmetic { operation: Operation::Subtract, left: 150, right: 70 },
            Action::Format(80),
            Action::Print("8".to_string()),
            Action::Finished,
        ]
    );
}

#[test]
fn each_operator_has_its_operation() {
    for (kind, lexeme, operation) in [
        (TokenType::Plus, "+", Operation::Add),
        (TokenType::Minus, "-", Operation::Subtract),
        (TokenType::Star, "*", Operation::Multiply),
        (TokenType::Slash, "/", Operation::Divide),
    ] {
        let statements = vec![Stmt::Expression(ExpressionStmt {
            expression: binary(number("1"), kind, lexeme, number("2")),
        })];
        let seen = actions(&statements, vec![Event::Number(1), Event::Number(2), Event::Number(3)]);
        assert_eq!(seen[2], Action::Arithmetic { operation, left: 1, right: 2 });
        assert_eq!(seen[3], Action::Finished);
    }
}

#[test]
fn a_number_joins_a_string_on_its_side() {
    let statements = vec![
        Stmt::Print(PrintStmt { expression: binary(number("1"), TokenType::Plus, "+", text("x")) }),
        Stmt::Print(PrintStmt { expression: binary(text("x"), TokenType::Plus, "+", number("1")) }),
    ];
    let seen = actions(
        &statements,
        vec![
            Event::Number(9),
            Event::Text("one".to_string()),
            Event::Number(9),
            Event::Text("one".to_string()),
        ],
    );
    assert_eq!(
        seen,
        vec![
            Action::Decode("1".to_string()),
            Action::Format(9),
            Action::Print("onex".to_string()),
            Action::Decode("1".to_string()),
            Action::Format(9),
            Action::Print("xone".to_string()),
            Action::Finished,
        ]
    );
}

#[test]
fn a_wrong_answer_ends_the_run() {
    let statements = vec![Stmt::Print(PrintStmt { expression: number("1") })];
    let seen = actions(&statements, vec![Event::Text("1".to_string())]);
    assert_eq!(
        seen.last(),
        Some(&Action::Failed(LoxResult::new_system_error("The host was asked for a number.")))
    );
    let seen = actions(&statements, vec![Event::Number(1), Event::Number(1)]);
    assert_eq!(
        seen.last(),
        Some(&Action::Failed(LoxResult::new_system_error("The host was asked for a text.")))
    );
    let seen = actions(&statements, vec![Event::Resume]);
    assert_eq!(
        seen.last(),
        Some(&Action::Failed(LoxResult::new_system_error("The host was asked for a number.")))
    );
}

#[test]
fn an_operator_of_another_kind_is_an_error_by_its_line() {
    let statements = vec![Stmt::Expression(ExpressionStmt {
        expression: binary(text("a"), TokenType::Comma, ",", text("b")),
    })];
    let seen = actions(&statements, Vec::new());
    assert_eq!(seen, vec![Action::Failed(LoxResult::error(3, "Unreachable error"))]);
}

#[test]
fn an_expression_ends_with_its_value() {
    let expr = binary(text("a"), TokenType::Plus, "+", text("b"));
    let mut interpreter = Interpreter::new();
    interpreter.evaluate_expression(&expr);
    let mut last = Action::Continue;
    for _ in 0..10 {
        last = interpreter.step(Event::Resume);
        if last != Action::Continue {
            break;
        }
    }
    assert_eq!(last, Action::Value(Object::Str("ab".to_string())));
    assert!(interpreter.is_idle());
}

#[test]
fn variables_stay_from_one_program_to_the_next() {
    let name = token(TokenType::Identifier, "a");
    let first = vec![Stmt::Var(VarStmt { name: name.clone(), initializer: Some(text("kept")) })];
    let second =
        vec![Stmt::Print(PrintStmt { expression: Expr::Variable(VariableExpr { name: name.clone() }) })];
    let mut interpreter = Interpreter::new();
    interpreter.interpret(&first);
    while interpreter.step(Event::Resume) != Action::Finished {}
    interpreter.interpret(&second);
    let mut printed = Vec::new();
    loop {
        match interpreter.step(Event::Resume) {
            Action::Finished => break,
            Action::Print(line) => printed.push(line),
            _ => {}
        }
    }
    assert_eq!(printed, vec!["kept"]);
    assert_eq!(interpreter.get(&name).unwrap(), Object::Str("kept".to_string()));
}

#[test]
fn a_failed_run_goes_back_to_the_outermost_scope() {
    let outer = token(TokenType::Identifier, "outer");
    let statements = vec![
        Stmt::Var(VarStmt { name: outer.clone(), initializer: Some(text("o")) }),
        Stmt::Block(BlockStmt {
            statements: vec![
                Stmt::Var(VarStmt {
                    name: token(TokenType::Identifier, "inner"),
                    initializer: Some(text("i")),
                }),
                Stmt::Expression(ExpressionStmt {
                    expression: Expr::Variable(VariableExpr {
                        name: token(TokenType::Identifier, "missing"),
                    }),
                }),
            ],
        }),
    ];
    let mut interpreter = Interpreter::new();
    interpreter.interpret(&statements);
    let error = loop {
        match interpreter.step(Event::Resume) {
            Action::Failed(error) => break error,
            Action::Finished => panic!("the run did not fail"),
            _ => {}
        }
    };
    assert_eq!(error.to_string(), "[line 3] RuntimeError at 'missing': Undefined variable 'missing'.");
    assert!(interpreter.is_idle());
    assert!(interpreter.get(&outer).is_ok());
    assert!(interpreter.get(&token(TokenType::Identifier, "inner")).is_err());
}

#[test]
fn a_program_given_during_a_run_takes_its_place() {
    let forever = vec![Stmt::While(WhileStmt {
        condition: Expr::Literal(LiteralExpr { value: Literal::Bool(true) }),
        body: Box::new(Stmt::Block(BlockStmt { statements: Vec::new() })),
    })];
    let short = vec![Stmt::Print(PrintStmt { expression: text("done") })];
    let mut interpreter = Interpreter::new();
    interpreter.interpret(&forever);
    for _ in 0..1000 {
        assert_eq!(interpreter.step(Event::Resume), Action::Continue);
    }
    interpreter.interpret(&short);
    let mut seen = Vec::new();
    loop {
        match interpreter.step(Event::Resume) {
            Action::Continue => {}
            Action::Finished => break,
            action => seen.push(action),
        }
    }
    assert_eq!(seen, vec![Action::Print("done".to_string())]);
}
