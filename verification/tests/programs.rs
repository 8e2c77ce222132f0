//! Whole programs, from source text to output.
use lox_ast::ast::Stmt;
use lox_ast::error::LoxResult;
use lox_ast::interpreter::{Action, Event, Interpreter};
use lox_ast::object::Operation;
use lox_ast::parser::Parser;
use lox_ast::scanner::Scanner;

/// What a run gave: the lines written, and the error it ended with if any.
struct Run {
    output: Vec<String>,
    error: Option<LoxResult>,
}

/// Does what a step asks, as a host would.
fn answer(action: Action, output: &mut Vec<String>) -> Event {
    match action {
        Action::Print(text) => {
            output.push(text);
            Event::Resume
        }
        Action::Decode(text) => Event::Number(text.parse::<f64>().unwrap().to_bits()),
        Action::Arithmetic { operation, left, right } => {
            let (l, r) = (f64::from_bits(left), f64::from_bits(right));
            let result = match operation {
                Operation::Add => l + r,
                Operation::Subtract => l - r,
                Operation::Multiply => l * r,
                Operation::Divide => l / r,
            };
            Event::Number(result.to_bits())
        }
        Action::Format(bits) => Event::Text(format!("{}", f64::from_bits(bits))),
        Action::Clock => Event::Number(1.5f64.to_bits()),
        _ => Event::Resume,
    }
}

fn interpret(statements: &Vec<Stmt>) -> Run {
    let mut interpreter = Interpreter::new();
    interpreter.interpret(statements);
    let mut output = Vec::new();
    let mut event = Event::Resume;
    for _ in 0..1_000_000 {
        match interpreter.step(event) {
            Action::Finished => return Run { output, error: None },
            Action::Failed(error) => return Run { output, error: Some(error) },
            action => event = answer(action, &mut output),
        }
    }
    panic!("the program did not end");
}

fn parse(source: &str) -> Result<Vec<Stmt>, Vec<LoxResult>> {
    let mut scanner = Scanner::new(source.to_string());
    if scanner.scan_tokens().is_err() {
        return Err(scanner.errors().clone());
    }
    let tokens = scanner.tokens().clone();
    let mut parser = Parser::new(&tokens);
    match parser.parse() {
        Ok(statements) if parser.success() => Ok(statements),
        _ => Err(parser.errors().clone()),
    }
}

fn run(source: &str) -> Run {
    let statements = parse(source).expect("the source has no syntax error");
    interpret(&statements)
}

fn lines(source: &str) -> Vec<String> {
    let run = run(source);
    assert!(run.error.is_none(), "unexpected error: {:?}", run.error);
    run.output
}

#[test]
fn block_scoping_shadows_and_restores() {
    assert_eq!(lines("var a = 1; { var a = a + 1; print a; } print a;"), vec!["2", "1"]);
}

#[test]
fn function_call_returns_sum() {
    assert_eq!(lines("fun add(a,b) { return a + b; } print add(2,3);"), vec!["5"]);
}

#[test]
fn for_loop_counts() {
    assert_eq!(lines("for (var i = 0; i < 3; i = i + 1) print i;"), vec!["0", "1", "2"]);
}

#[test]
fn malformed_print_reports_one_error() {
    let errors = parse("print ;\nvar a = 1;\nprint a;").unwrap_err();
    assert_eq!(errors.len(), 1);
    assert_eq!(errors[0].to_string(), "[line 1] ParseError: at ';' Expect expression");
}

#[test]
fn string_concatenation() {
    assert_eq!(lines("print \"a\" + \"b\";"), vec!["ab"]);
    assert_eq!(lines("print 1 + \"x\";"), vec!["1x"]);
    assert_eq!(lines("print \"x\" + 2.5;"), vec!["x2.5"]);
}

#[test]
fn arithmetic_on_a_boolean_fails() {
    let run = run("print 1;\nprint true - 1;\nprint 2;");
    assert_eq!(run.output, vec!["1"]);
    let error = run.error.expect("a runtime error");
    assert_eq!(error.to_string(), "[line 2] RuntimeError at '-': Illegal expression");
}

#[test]
fn comparison_across_kinds_fails() {
    let run = run("print 1 > true;");
    assert!(matches!(run.error, Some(LoxResult::RuntimeError { .. })));
    let run = run_source_error("print \"a\" < \"b\";");
    assert!(matches!(run, LoxResult::RuntimeError { .. }));
    let run = run_source_error("print 1 == \"1\";");
    assert!(matches!(run, LoxResult::RuntimeError { .. }));
}

fn run_source_error(source: &str) -> LoxResult {
    run(source).error.expect("a runtime error")
}

#[test]
fn nil_equality_is_never_an_error() {
    assert_eq!(
        lines("print nil == nil; print nil == 1; print \"a\" == nil; print nil != false;"),
        vec!["true", "false", "false", "true"]
    );
}

#[test]
fn numbers_compare_and_compute() {
    assert_eq!(
        lines("print 1 < 2; print 2 <= 2; print 3 > 4; print 7 / 2; print 2 * 3 - 1; print -(1 + 2);"),
        vec!["true", "true", "false", "3.5", "5", "-3"]
    );
    assert_eq!(lines("print 0 == -0; print (0/0) == (0/0); print 1/0;"), vec!["true", "false", "inf"]);
}

#[test]
fn assignment_reaches_the_outer_variable() {
    assert_eq!(lines("var a = 1; { a = 2; var b = 3; } print a;"), vec!["2"]);
    let error = run_source_error("{ var b = 3; } print b;");
    assert_eq!(error.to_string(), "[line 1] RuntimeError at 'b': Undefined variable 'b'.");
    let error = run_source_error("c = 1;");
    assert_eq!(error.to_string(), "[line 1] RuntimeError at 'c': Undefined variable 'c'.");
}

#[test]
fn counters_count_independently() {
    let source = "
        fun make() {
            var n = 0;
            fun count() { n = n + 1; return n; }
            return count;
        }
        var a = make();
        var b = make();
        print a(); print a(); print b(); print a();";
    assert_eq!(lines(source), vec!["1", "2", "1", "3"]);
}

#[test]
fn break_leaves_the_innermost_loop() {
    let source = "
        var i = 0;
        while (i < 3) {
            var j = 0;
            while (true) {
                if (j == 2) break;
                print j;
                j = j + 1;
            }
            i = i + 1;
        }
        print i;";
    assert_eq!(lines(source), vec!["0", "1", "0", "1", "0", "1", "3"]);
}

#[test]
fn break_outside_a_loop_is_an_error() {
    let run = run("print 1;\nbreak;\nprint 2;");
    assert_eq!(run.output, vec!["1"]);
    assert_eq!(
        run.error.unwrap().to_string(),
        "[line 2] RuntimeError at 'break': Cannot break outside of loop"
    );
}

#[test]
fn return_at_top_level_is_an_error() {
    let error = run_source_error("return 1;");
    assert_eq!(
        error.to_string(),
        "[line 1] RuntimeError at 'return': Cannot return from top-level code."
    );
}

#[test]
fn logical_operators_give_an_operand() {
    assert_eq!(
        lines("print nil or \"x\"; print 1 or 2; print nil and 1; print 1 and 2; print false or false;"),
        vec!["x", "1", "nil", "2", "false"]
    );
}

#[test]
fn calls_check_callee_and_arity() {
    let error = run_source_error("fun f(a) { return a; }\nprint f(1, 2);");
    assert_eq!(
        error.to_string(),
        "[line 2] RuntimeError at ')': Expected 1 arguments but got 2."
    );
    let error = run_source_error("var f = 1; f();");
    assert_eq!(
        error.to_string(),
        "[line 1] RuntimeError at ')': Can only call functions and classes."
    );
    assert_eq!(lines("fun f() {} print f(); print f; print clock; print clock();"),
        vec!["nil", "<fn f>", "<fn clock>", "1.5"]);
}

#[test]
fn functions_see_the_scope_they_were_declared_in() {
    let source = "
        var a = \"global\";
        {
            fun show() { print a; }
            show();
            var a = \"block\";
            show();
        }";
    assert_eq!(lines(source), vec!["global", "block"]);
}

#[test]
fn recursion_and_early_return() {
    let source = "
        fun fib(n) { if (n < 2) return n; return fib(n - 1) + fib(n - 2); }
        print fib(10);
        fun first() { while (true) { return 7; } }
        print first();";
    assert_eq!(lines(source), vec!["55", "7"]);
}

#[test]
fn unary_operators() {
    assert_eq!(lines("print !nil; print !0; print -\"a\"; print --2;"), vec!["true", "false", "nil", "2"]);
}
