//! Tokens to syntax trees.
use lox_ast::ast::{Expr, Stmt};
use lox_ast::error::LoxResult;
use lox_ast::parser::Parser;
use lox_ast::scanner::Scanner;
use lox_ast::tokens::{Literal, Token, TokenType};

fn tokens_of(source: &str) -> Vec<Token> {
    let mut scanner = Scanner::new(source.to_string());
    scanner.scan_tokens().expect("the source scans").clone()
}

/// What a parse gave: the statements or the error, every error reported,
/// and where the parser stands.
struct Parse {
    result: Result<Vec<Stmt>, LoxResult>,
    errors: Vec<LoxResult>,
    success: bool,
}

fn parse(source: &str) -> Parse {
    let tokens = tokens_of(source);
    let mut parser = Parser::new(&tokens);
    let result = parser.parse();
    Parse { result, errors: parser.errors().clone(), success: parser.success() }
}

fn literal(value: &Literal) -> String {
    match value {
        Literal::Number(text) => text.clone(),
        Literal::Str(text) => format!("{text:?}"),
        Literal::Bool(b) => format!("{b}"),
        Literal::Nil => "nil".to_string(),
    }
}

/// The expression with a pair of parentheses round each node.
fn show(expr: &Expr) -> String {
    match expr {
        Expr::Assign(e) => format!("(= {} {})", e.name.lexeme, show(&e.value)),
        Expr::Binary(e) => format!("({} {} {})", e.operator.lexeme, show(&e.left), show(&e.right)),
        Expr::Logical(e) => format!("[{} {} {}]", e.operator.lexeme, show(&e.left), show(&e.right)),
        Expr::Call(e) => {
            let arguments: Vec<String> = e.arguments.iter().map(show).collect();
            format!("(call {} {})", show(&e.callee), arguments.join(" ")).replace(" )", ")")
        }
        Expr::Grouping(e) => format!("(group {})", show(&e.expression)),
        Expr::Literal(e) => literal(&e.value),
        Expr::Unary(e) => format!("({} {})", e.operator.lexeme, show(&e.right)),
        Expr::Variable(e) => e.name.lexeme.clone(),
    }
}

fn show_all(statements: &[Stmt]) -> String {
    statements.iter().map(show_stmt).collect::<Vec<_>>().join(" ")
}

fn show_stmt(stmt: &Stmt) -> String {
    match stmt {
        Stmt::Block(s) => format!("{{ {} }}", show_all(&s.statements)).replace("{  }", "{ }"),
        Stmt::Break(_) => "break;".to_string(),
        Stmt::Expression(s) => format!("{};", show(&s.expression)),
        Stmt::Function(s) => {
            let params: Vec<&str> = s.params.iter().map(|p| p.lexeme.as_str()).collect();
            format!("fun {}({}) {{ {} }}", s.name.lexeme, params.join(","), show_all(&s.body))
                .replace("{  }", "{ }")
        }
        Stmt::If(s) => match &s.else_branch {
            Some(other) => format!(
                "if {} then {} else {}",
                show(&s.condition),
                show_stmt(&s.then_branch),
                show_stmt(other)
            ),
            None => format!("if {} then {}", show(&s.condition), show_stmt(&s.then_branch)),
        },
        Stmt::Print(s) => format!("print {};", show(&s.expression)),
        Stmt::Return(s) => match &s.value {
            Some(value) => format!("return {};", show(value)),
            None => "return;".to_string(),
        },
        Stmt::Var(s) => match &s.initializer {
            Some(value) => format!("var {} = {};", s.name.lexeme, show(value)),
            None => format!("var {};", s.name.lexeme),
        },
        Stmt::While(s) => format!("while {} do {}", show(&s.condition), show_stmt(&s.body)),
    }
}

fn tree(source: &str) -> String {
    let parse = parse(source);
    assert!(parse.success, "errors: {:?}", parse.errors);
    assert!(parse.errors.is_empty());
    show_all(&parse.result.expect("the source parses"))
}

/// The text of the one error that ends the parse of `source`.
fn failure(source: &str) -> String {
    let parse = parse(source);
    assert!(!parse.success);
    let error = parse.result.expect_err("the parse fails");
    assert_eq!(parse.errors, vec![error.clone()]);
    error.to_string()
}

#[test]
fn precedence_from_factors_to_or() {
    assert_eq!(tree("1 + 2 * 3;"), "(+ 1 (* 2 3));");
    assert_eq!(tree("1 * 2 + 3;"), "(+ (* 1 2) 3);");
    assert_eq!(tree("1 < 2 == 3 > 4;"), "(== (< 1 2) (> 3 4));");
    assert_eq!(tree("a or b and c == d;"), "[or a [and b (== c d)]];");
    assert_eq!(tree("!a == -b * c;"), "(== (! a) (* (- b) c));");
    assert_eq!(tree("1 <= 2 != 3 >= 4;"), "(!= (<= 1 2) (>= 3 4));");
}

#[test]
fn binary_operators_associate_to_the_left() {
    assert_eq!(tree("1 - 2 - 3;"), "(- (- 1 2) 3);");
    assert_eq!(tree("8 / 4 / 2 * 3;"), "(* (/ (/ 8 4) 2) 3);");
    assert_eq!(tree("a or b or c;"), "[or [or a b] c];");
    assert_eq!(tree("a == b == c;"), "(== (== a b) c);");
}

#[test]
fn primaries() {
    assert_eq!(
        tree("1.5; \"s\"; true; false; nil; x; (1);"),
        "1.5; \"s\"; true; false; nil; x; (group 1);"
    );
    assert_eq!(tree("((a));"), "(group (group a));");
    assert_eq!(tree("--1; !!a;"), "(- (- 1)); (! (! a));");
}

#[test]
fn assignment_associates_to_the_right() {
    assert_eq!(tree("a = b = 1 + 2;"), "(= a (= b (+ 1 2)));");
    assert_eq!(tree("a = b or c;"), "(= a [or b c]);");
}

#[test]
fn invalid_assignment_target_is_reported_and_parsing_goes_on() {
    let sum = parse("1 + a = 2;\nprint 3;");
    assert!(!sum.success);
    assert_eq!(
        sum.errors.iter().map(|e| e.to_string()).collect::<Vec<_>>(),
        vec!["[line 1] ParseError: at '=' Invalid assignment target."]
    );
    assert_eq!(show_all(&sum.result.unwrap()), "(+ 1 a); print 3;");
    let grouped = parse("(a) = 1;");
    assert_eq!(show_all(&grouped.result.unwrap()), "(group a);");
    assert_eq!(grouped.errors.len(), 1);
}

#[test]
fn calls() {
    assert_eq!(tree("f();"), "(call f);");
    assert_eq!(tree("f(1, a + b)(2)();"), "(call (call (call f 1 (+ a b)) 2));");
    assert_eq!(tree("-f(x);"), "(- (call f x));");
    assert_eq!(failure("f(1;"), "[line 1] ParseError: at ';' Expect ')' after arguments.");
    assert_eq!(failure("f(1,);"), "[line 1] ParseError: at ')' Expect expression");
}

#[test]
fn statements() {
    assert_eq!(tree("print 1; var a; var b = 2; { var c; } {}"), "print 1; var a; var b = 2; { var c; } { }");
    assert_eq!(tree("if (a) print 1; else { print 2; }"), "if a then print 1; else { print 2; }");
    assert_eq!(tree("if (a) if (b) c; else d;"), "if a then if b then c; else d;");
    assert_eq!(tree("while (a < 3) a = a + 1;"), "while (< a 3) do (= a (+ a 1));");
    assert_eq!(tree("while (true) { break; }"), "while true do { break; }");
    assert_eq!(
        tree("fun add(a, b) { return a + b; } fun f() { return; }"),
        "fun add(a,b) { return (+ a b); } fun f() { return; }"
    );
}

#[test]
fn for_becomes_while() {
    assert_eq!(
        tree("for (var i = 0; i < 3; i = i + 1) print i;"),
        "{ var i = 0; while (< i 3) do { print i; (= i (+ i 1)); } }"
    );
    assert_eq!(tree("for (;;) print 1;"), "while true do print 1;");
    assert_eq!(tree("for (i = 0; ; ) {}"), "{ (= i 0); while true do { } }");
    assert_eq!(tree("for (; a; b) c;"), "while a do { c; b; }");
}

#[test]
fn a_token_without_its_literal_reads_as_nil() {
    let tokens = vec![
        Token::new(TokenType::Number, "1".to_string(), None, 1),
        Token::new(TokenType::Semicolon, ";".to_string(), None, 1),
        Token::eof(1),
    ];
    let mut parser = Parser::new(&tokens);
    assert_eq!(show_all(&parser.parse().unwrap()), "nil;");
}

#[test]
fn the_first_error_ends_the_parse() {
    assert_eq!(failure("print ;"), "[line 1] ParseError: at ';' Expect expression");
    assert_eq!(failure("print 1"), "[line 1] ParseError: at '' Expect ';' after value.");
    assert_eq!(failure("1 +;\nprint ;\nvar;"), "[line 1] ParseError: at ';' Expect expression");
    assert_eq!(failure("var 1;"), "[line 1] ParseError: at '1' Expected variable name");
    assert_eq!(failure("var a = 1"), "[line 1] ParseError: at '' Expected ';' after variable declaration.");
    assert_eq!(failure("(1;"), "[line 1] ParseError: at ';' Expect ')' after expression");
    assert_eq!(failure("{ print 1;"), "[line 1] ParseError: at '' Expect '}' after block.");
    assert_eq!(failure("if a) b;"), "[line 1] ParseError: at 'a' Expect '(' after 'if'.");
    assert_eq!(failure("if (a b;"), "[line 1] ParseError: at 'b' Expect ')' after 'if'.");
    assert_eq!(failure("while a) b;"), "[line 1] ParseError: at 'a' Expect '(' after while.");
    assert_eq!(failure("while (a b;"), "[line 1] ParseError: at 'b' Expect ')' after while.");
    assert_eq!(failure("for i;"), "[line 1] ParseError: at 'i' Expect '(' after 'for'.");
    assert_eq!(failure("for (;a b) c;"), "[line 1] ParseError: at 'b' Expect ';' after loop condition");
    assert_eq!(failure("for (;;a b) c;"), "[line 1] ParseError: at 'b' Expect ')' after 'for' clauses");
    assert_eq!(failure("break"), "[line 1] ParseError: at '' Expect ';' after 'break'.");
    assert_eq!(failure("return 1"), "[line 1] ParseError: at '' Expect ';' after return value.");
    assert_eq!(failure("fun (a) {}"), "[line 1] ParseError: at '(' Expect function name.");
    assert_eq!(failure("fun f a) {}"), "[line 1] ParseError: at 'a' Expect '(' after function name.");
    assert_eq!(failure("fun f(1) {}"), "[line 1] ParseError: at '1' Expect parameter name.");
    assert_eq!(failure("fun f(a b) {}"), "[line 1] ParseError: at 'b' Expect ')' after parameters.");
    assert_eq!(failure("fun f(a);"), "[line 1] ParseError: at ';' Expect '{' before function body.");
    assert_eq!(failure("class A {}"), "[line 1] ParseError: at 'class' Expect expression");
}

/// Where the parser stands after the declaration that fails in `source`.
fn resumes_at(source: &str) -> String {
    let tokens = tokens_of(source);
    let mut parser = Parser::new(&tokens);
    assert!(parser.parse().is_err());
    // What is left parses from where the parser stands.
    match parser.parse() {
        Ok(rest) => show_all(&rest),
        Err(error) => error.to_string(),
    }
}

#[test]
fn after_an_error_the_parser_stands_at_the_next_statement() {
    assert_eq!(resumes_at("print ; print 2;"), "print 2;");
    assert_eq!(resumes_at("1 + ; 2; 3;"), "2; 3;");
    assert_eq!(resumes_at("(1 2 3 var a; b;"), "var a; b;");
    assert_eq!(resumes_at("1 2 if (a) b; c;"), "if a then b; c;");
    assert_eq!(resumes_at("+ while (a) b;"), "while a do b;");
    assert_eq!(resumes_at("+ for (;;) b;"), "while true do b;");
    assert_eq!(resumes_at("+ return 1;"), "return 1;");
    assert_eq!(resumes_at("+ 1 2 3"), "");
    assert_eq!(resumes_at("+ class"), "[line 1] ParseError: at 'class' Expect expression");
}

#[test]
fn an_empty_program() {
    assert_eq!(tree(""), "");
    assert_eq!(tree("// nothing\n"), "");
}
