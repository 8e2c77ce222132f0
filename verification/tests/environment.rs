//! Scopes and the variables they hold.
use lox_ast::environment::Environment;
use lox_ast::error::LoxResult;
use lox_ast::object::Object;
use lox_ast::tokens::{Token, TokenType};

fn number(value: f64) -> Object<'static> {
    Object::Num(value.to_bits())
}

fn name(text: &str) -> Token {
    Token::new(TokenType::Identifier, text.to_string(), None, 0)
}

#[test]
fn test_variable_definition() {
    let mut e = Environment::new();

    e.define(0, "One".to_string(), Object::Bool(true));

    assert!(e.get(0, &name("One")).is_ok());
    assert_eq!(e.get(0, &name("One")).unwrap(), Object::Bool(true));
}

#[test]
fn test_variable_redefinition() {
    let mut e = Environment::new();

    e.define(0, "Cool".to_string(), number(7.8));

    assert!(e.get(0, &name("Cool")).is_ok());
    assert_eq!(e.get(0, &name("Cool")).unwrap(), number(7.8));

    e.define(0, "Cool".to_string(), number(88.8));
    assert_eq!(e.get(0, &name("Cool")).unwrap(), number(88.8));
}

#[test]
fn test_variable_lookup() {
    let mut e = Environment::new();

    e.define(0, "cool".to_string(), Object::Str("FooBar is cool".to_string()));

    assert_eq!(
        e.get(0, &Token::new(TokenType::Identifier, "cool".to_string(), None, 0)).unwrap(),
        Object::Str("FooBar is cool".to_string())
    )
}

#[test]
fn test_undefined_variable() {
    let e = Environment::new();

    let res = e.get(0, &Token::new(TokenType::Identifier, "cool".to_string(), None, 0));

    assert!(res.is_err());
}

#[test]
fn test_assign_defined_variable() {
    let mut e = Environment::new();
    let tok = Token::new(TokenType::Identifier, "cool".to_string(), None, 0);

    // Define the variable
    e.define(0, "cool".to_string(), Object::Str("FooBar is cool".to_string()));

    // Check that the variable's value is defined
    assert_eq!(e.get(0, &tok).unwrap(), Object::Str("FooBar is cool".to_string()));

    // Assign a new value to the variable
    e.assign(0, &tok, Object::Bool(true)).unwrap();

    // Check that the new value has been assigned to the variable
    assert_eq!(e.get(0, &tok).unwrap(), Object::Bool(true));
}

#[test]
fn test_assign_undefined_variable() {
    let mut e = Environment::new();

    let tok = Token::new(TokenType::Identifier, "cool".to_string(), None, 0);

    assert!(e.assign(0, &tok, Object::Nil).is_err());
}

#[test]
fn test_enclose_environment() {
    let mut e = Environment::new();
    let f = e.new_with_enclosing(0);

    assert_eq!(e.enclosing(f), Some(0));
    assert_eq!(e.enclosing(0), None);
    assert_eq!(e.len(), 2);
}

#[test]
fn test_read_enclosed_environment() {
    let mut e = Environment::new();
    e.define(0, "variable".to_string(), number(77.8));
    let f = e.new_with_enclosing(0);
    assert_eq!(
        e.get(f, &Token::new(TokenType::Identifier, "variable".to_string(), None, 0)).unwrap(),
        number(77.8)
    );
}

#[test]
fn test_assign_to_enclosed_environment() {
    let mut e = Environment::new();

    // Define
    e.define(0, "cool".to_string(), number(77.8));
    let f = e.new_with_enclosing(0);

    // Assert the variable was defined
    assert_eq!(
        e.get(f, &Token::new(TokenType::Identifier, "cool".to_string(), None, 0)).unwrap(),
        number(77.8)
    );

    let tok = Token::new(TokenType::Identifier, "cool".to_string(), None, 0);

    // Assign a new value to the variable
    e.assign(f, &tok, Object::Bool(true)).unwrap();

    // Check that the new value has been assigned to the variable
    assert_eq!(e.get(f, &tok).unwrap(), Object::Bool(true));
    // It is the outer variable that changed
    assert_eq!(e.get(0, &tok).unwrap(), Object::Bool(true));
}

#[test]
fn definition_shadows_in_its_own_scope_only() {
    let mut e = Environment::new();
    e.define(0, "a".to_string(), number(1.0));
    let inner = e.new_with_enclosing(0);
    e.define(inner, "a".to_string(), number(2.0));
    e.define(inner, "b".to_string(), number(3.0));

    assert_eq!(e.get(inner, &name("a")).unwrap(), number(2.0));
    assert_eq!(e.get(0, &name("a")).unwrap(), number(1.0));
    assert!(e.get(0, &name("b")).is_err());
}

#[test]
fn assignment_changes_the_nearest_holder() {
    let mut e = Environment::new();
    e.define(0, "a".to_string(), number(1.0));
    let middle = e.new_with_enclosing(0);
    e.define(middle, "a".to_string(), number(2.0));
    let inner = e.new_with_enclosing(middle);

    e.assign(inner, &name("a"), number(9.0)).unwrap();

    assert_eq!(e.get(inner, &name("a")).unwrap(), number(9.0));
    assert_eq!(e.get(middle, &name("a")).unwrap(), number(9.0));
    assert_eq!(e.get(0, &name("a")).unwrap(), number(1.0));
}

#[test]
fn undefined_variable_names_the_token() {
    let e = Environment::new();
    let error = e.get(0, &Token::new(TokenType::Identifier, "x".to_string(), None, 7)).unwrap_err();

    assert_eq!(error.to_string(), "[line 7] RuntimeError at 'x': Undefined variable 'x'.");
    assert!(matches!(error, LoxResult::RuntimeError { .. }));
}

#[test]
fn sibling_scopes_do_not_see_each_other() {
    let mut e = Environment::new();
    let first = e.new_with_enclosing(0);
    let second = e.new_with_enclosing(0);
    e.define(first, "a".to_string(), Object::Nil);

    assert!(e.get(second, &name("a")).is_err());
    assert!(e.assign(second, &name("a"), Object::Bool(false)).is_err());
    assert_eq!(e.get(first, &name("a")).unwrap(), Object::Nil);
}
