//! The interpreter: a machine that runs a program step by step.
//!
//! [`Interpreter::step`] takes the step that [`crate::machine::step`]
//! defines. The host calls it in a loop, does what each step asks, and hands
//! the answer to the next step.
use vstd::prelude::*;
use crate::ast::{
    AssignExpr, BinaryExpr, CallExpr, Expr, IfStmt, LogicalExpr, Stmt, UnaryExpr, WhileStmt,
};
use crate::environment::{bound, Environment, ScopeView};
use crate::error::{push_decimal, LoxResult};
use crate::machine;
use crate::machine::{
    ActionView, Core, EventView, FrameView, MachineView, ModeView, Step, TextUseView,
};
use crate::object::{
    object_views, Callable, CallableView, LoxFunction, NativeClock, Object, ObjectView, Operation,
    Outcome,
};
use crate::tokens::{Literal, Token, TokenType};

verus! {

/// What the host is to do before the next step.
#[derive(Debug, PartialEq)]
pub enum Action<'a> {
    /// Nothing.
    Continue,
    /// Write the text and a line feed to the output.
    Print(String),
    /// Decode the decimal text of a number, and answer with the number.
    Decode(String),
    /// Do the arithmetic on the two doubles, and answer with the result.
    Arithmetic { operation: Operation, left: u64, right: u64 },
    /// Answer with the decimal form of the number.
    Format(u64),
    /// Answer with the time, in seconds, as a number.
    Clock,
    /// Nothing: the run has ended, and no error was met.
    Finished,
    /// Nothing: the run has ended, and the expression has this value.
    Value(Object<'a>),
    /// Report the error: the run has ended with it.
    Failed(LoxResult),
}

impl<'a> View for Action<'a> {
    type V = ActionView;

    open spec fn view(&self) -> ActionView {
        match *self {
            Action::Continue => ActionView::Continue,
            Action::Print(text) => ActionView::Print(text@),
            Action::Decode(text) => ActionView::Decode(text@),
            Action::Arithmetic { operation, left, right } => ActionView::Arithmetic {
                operation,
                left,
                right,
            },
            Action::Format(bits) => ActionView::Format(bits),
            Action::Clock => ActionView::Clock,
            Action::Finished => ActionView::Finished,
            Action::Value(value) => ActionView::Value(value@),
            Action::Failed(error) => ActionView::Failed(error@),
        }
    }
}

/// What the host answers.
#[derive(Debug, PartialEq)]
pub enum Event {
    /// Nothing was asked for.
    Resume,
    Number(u64),
    Text(String),
}

impl View for Event {
    type V = EventView;

    open spec fn view(&self) -> EventView {
        match *self {
            Event::Resume => EventView::Resume,
            Event::Number(bits) => EventView::Number(bits),
            Event::Text(text) => EventView::Text(text@),
        }
    }
}

/// What the text that the host gives is for.
enum TextUse {
    Print,
    Before(String),
    After(String),
}

impl View for TextUse {
    type V = TextUseView;

    closed spec fn view(&self) -> TextUseView {
        match *self {
            TextUse::Print => TextUseView::Print,
            TextUse::Before(text) => TextUseView::Before(text@),
            TextUse::After(text) => TextUseView::After(text@),
        }
    }
}

/// What is under way.
enum Mode<'a> {
    Idle,
    Execute(&'a Stmt),
    Evaluate(&'a Expr),
    Value(Object<'a>),
    Done,
    Break,
    Return { value: Object<'a>, keyword: &'a Token },
    AwaitNumber,
    AwaitText(TextUse),
}

impl<'a> View for Mode<'a> {
    type V = ModeView;

    closed spec fn view(&self) -> ModeView {
        match *self {
            Mode::Idle => ModeView::Idle,
            Mode::Execute(stmt) => ModeView::Execute(*stmt),
            Mode::Evaluate(expr) => ModeView::Evaluate(*expr),
            Mode::Value(value) => ModeView::Value(value@),
            Mode::Done => ModeView::Done,
            Mode::Break => ModeView::Break,
            Mode::Return { value, keyword } => ModeView::Return {
                value: value@,
                keyword: *keyword,
            },
            Mode::AwaitNumber => ModeView::AwaitNumber,
            Mode::AwaitText(usage) => ModeView::AwaitText(usage@),
        }
    }
}

/// What is to be done when the expression or statement under way is done.
enum Frame<'a> {
    Block { statements: &'a Vec<Stmt>, next: usize, saved: usize },
    Condition(&'a WhileStmt),
    Body(&'a WhileStmt),
    Invoke,
    Discard,
    Print,
    Define(&'a Token),
    If(&'a IfStmt),
    Return(&'a Token),
    Unary(&'a UnaryExpr),
    Left(&'a BinaryExpr),
    Right(&'a BinaryExpr, Object<'a>),
    Logical(&'a LogicalExpr),
    Assign(&'a AssignExpr),
    Call { call: &'a CallExpr, callee: Option<Object<'a>>, arguments: Vec<Object<'a>> },
}

impl<'a> View for Frame<'a> {
    type V = FrameView;

    closed spec fn view(&self) -> FrameView {
        match *self {
            Frame::Block { statements, next, saved } => FrameView::Block {
                statements: statements@,
                next: next as int,
                saved: saved as int,
            },
            Frame::Condition(s) => FrameView::Condition(*s),
            Frame::Body(s) => FrameView::Body(*s),
            Frame::Invoke => FrameView::Invoke,
            Frame::Discard => FrameView::Discard,
            Frame::Print => FrameView::Print,
            Frame::Define(name) => FrameView::Define(*name),
            Frame::If(s) => FrameView::If(*s),
            Frame::Return(keyword) => FrameView::Return(*keyword),
            Frame::Unary(e) => FrameView::Unary(*e),
            Frame::Left(e) => FrameView::Left(*e),
            Frame::Right(e, left) => FrameView::Right(*e, left@),
            Frame::Logical(e) => FrameView::Logical(*e),
            Frame::Assign(e) => FrameView::Assign(*e),
            Frame::Call { call, callee, arguments } => FrameView::Call {
                call: *call,
                callee: match callee {
                    Some(callee) => Some(callee@),
                    None => None,
                },
                arguments: object_views(arguments@),
            },
        }
    }
}

/// The views of the frames of a stack, from the bottom up.
spec fn frame_views<'a>(stack: Seq<Frame<'a>>) -> Seq<FrameView> {
    stack.map_values(|f: Frame<'a>| f@)
}

/// The scopes of a new interpreter: the outermost scope, which holds the
/// clock.
pub open spec fn globals() -> Seq<ScopeView> {
    bound(
        seq![ScopeView { enclosing: None, bindings: Map::empty() }],
        0,
        "clock"@,
        ObjectView::Func(CallableView::Native),
    )
}

/// A new interpreter refers to scopes that there are only, and so does every
/// state that follows, by [`machine::law_scopes_stay`].
pub proof fn law_new_interpreter_is_in_order()
    ensures
        machine::sound(
            MachineView {
                core: Core { scopes: globals(), current: 0, stack: Seq::empty() },
                mode: ModeView::Idle,
            },
        ),
        machine::scopes_ok(globals()),
{
    let scopes = globals();
    assert forall|i: int, name: Seq<char>|
        0 <= i < scopes.len() && (#[trigger] scopes[i].bindings.dom().contains(name))
            implies machine::value_ok(scopes[i].bindings[name], scopes.len() as int) by {
    }
}

/// The interpreter. It keeps its scopes from one program to the next.
pub struct Interpreter<'a> {
    /// Our variable environment.
    environment: Environment<'a>,
    /// The index of the scope that the code under way runs in.
    current: usize,
    stack: Vec<Frame<'a>>,
    mode: Mode<'a>,
}

impl<'a> View for Interpreter<'a> {
    type V = MachineView;

    closed spec fn view(&self) -> MachineView {
        MachineView { core: self.base(), mode: self.mode@ }
    }
}

impl<'a> Interpreter<'a> {
    /// The state without what is under way.
    spec fn base(&self) -> Core {
        Core {
            scopes: self.environment@,
            current: self.current as int,
            stack: frame_views(self.stack@),
        }
    }

    /// The scopes are well formed and the current scope is one of them.
    pub closed spec fn wf(&self) -> bool {
        &&& self.environment.wf()
        &&& self.current < self.environment@.len()
    }

    /// An interpreter that runs nothing, with the clock in its outermost scope.
    pub fn new() -> (interpreter: Self)
        ensures
            interpreter.wf(),
            interpreter@ == (MachineView {
                core: Core { scopes: globals(), current: 0, stack: Seq::empty() },
                mode: ModeView::Idle,
            }),
    {
        let mut environment = Environment::new();
        environment.define(
            0,
            String::from_str("clock"),
            Object::Func(Callable::Native(NativeClock)),
        );
        let interpreter = Self {
            environment,
            current: 0,
            stack: Vec::new(),
            mode: Mode::Idle,
        };
        proof {
            interpreter.environment.lemma_wf();
            assert(frame_views(interpreter.stack@) =~= Seq::empty());
        }
        interpreter
    }

    /// Makes `statements` the program to run, from its first statement, in
    /// the outermost scope. A run under way is given up.
    pub fn interpret(&mut self, statements: &'a Vec<Stmt>)
        requires
            old(self).wf(),
        ensures
            final(self).wf(),
            final(self)@ == machine::loaded(old(self)@.core.scopes, statements@),
    {
        proof {
            self.environment.lemma_wf();
        }
        self.stack.clear();
        self.stack.push(Frame::Block { statements, next: 0, saved: 0 });
        self.current = 0;
        self.mode = Mode::Done;
        proof {
            assert(frame_views(self.stack@) =~= seq![
                FrameView::Block { statements: statements@, next: 0, saved: 0 },
            ]);
        }
    }

    /// Makes `expr` the expression to evaluate, in the outermost scope. A
    /// run under way is given up.
    pub fn evaluate_expression(&mut self, expr: &'a Expr)
        requires
            old(self).wf(),
        ensures
            final(self).wf(),
            final(self)@ == machine::evaluating(old(self)@.core.scopes, *expr),
    {
        proof {
            self.environment.lemma_wf();
        }
        self.stack.clear();
        self.current = 0;
        self.mode = Mode::Evaluate(expr);
        proof {
            assert(frame_views(self.stack@) =~= Seq::empty());
        }
    }

    /// Whether no program runs.
    pub fn is_idle(&self) -> (idle: bool)
        ensures
            idle == (self@.mode is Idle),
    {
        match self.mode {
            Mode::Idle => true,
            _ => false,
        }
    }

    /// The value of the variable `name` for the code under way.
    pub fn get(&self, name: &Token) -> (result: Result<Object<'a>, LoxResult>)
        requires
            self.wf(),
        ensures
            match result {
                Ok(value) => crate::environment::lookup(
                    self@.core.scopes,
                    self@.core.current,
                    name.lexeme@,
                ) == Some(value@),
                Err(e) => crate::environment::lookup(
                    self@.core.scopes,
                    self@.core.current,
                    name.lexeme@,
                ) is None && e@ == crate::environment::undefined(*name),
            },
    {
        self.environment.get(self.current, name)
    }

    /// Takes one step.
    pub fn step(&mut self, event: Event) -> (action: Action<'a>)
        requires
            old(self).wf(),
        ensures
            final(self).wf(),
            (Step { machine: final(self)@, action: action@ }) == machine::step(old(self)@, event@),
    {
        let mut mode = Mode::Idle;
        std::mem::swap(&mut self.mode, &mut mode);
        match mode {
            Mode::Idle => Action::Finished,
            Mode::Execute(stmt) => self.execute(stmt),
            Mode::Evaluate(expr) => self.evaluate(expr),
            Mode::Value(value) => {
                if self.stack.len() == 0 {
                    assert(frame_views(self.stack@).len() == 0);
                    Action::Value(value)
                } else {
                    match self.pop() {
                        Some(frame) => self.value(frame, value),
                        None => Action::Value(value),
                    }
                }
            },
            Mode::Done => match self.pop() {
                Some(frame) => self.done(frame),
                None => Action::Finished,
            },
            Mode::Break => match self.pop() {
                Some(frame) => self.leave_loop(frame),
                None => self.broken("No loop takes the break."),
            },
            Mode::Return { value, keyword } => match self.pop() {
                Some(frame) => self.leave_call(frame, value, keyword),
                None => self.fail(
                    LoxResult::new_runtime_error(
                        keyword.clone(),
                        String::from_str("Cannot return from top-level code."),
                    ),
                ),
            },
            Mode::AwaitNumber => match event {
                Event::Number(bits) => self.go(Mode::Value(Object::Num(bits))),
                _ => self.broken("The host was asked for a number."),
            },
            Mode::AwaitText(usage) => match event {
                Event::Text(text) => match usage {
                    TextUse::Print => {
                        self.mode = Mode::Done;
                        Action::Print(text)
                    },
                    TextUse::Before(behind) => self.go(
                        Mode::Value(Object::Str(text.concat(behind.as_str()))),
                    ),
                    TextUse::After(before) => self.go(
                        Mode::Value(Object::Str(before.concat(text.as_str()))),
                    ),
                },
                _ => self.broken("The host was asked for a text."),
            },
        }
    }

    /// Goes on with `mode`.
    fn go(&mut self, mode: Mode<'a>) -> (action: Action<'a>)
        requires
            old(self).wf(),
        ensures
            final(self).wf(),
            (Step { machine: final(self)@, action: action@ }) == machine::to(
                old(self).base(),
                mode@,
            ),
    {
        self.mode = mode;
        Action::Continue
    }

    /// Asks the host for `action` and goes on with `mode`.
    fn ask(&mut self, mode: Mode<'a>, action: Action<'a>) -> (asked: Action<'a>)
        requires
            old(self).wf(),
        ensures
            final(self).wf(),
            (Step { machine: final(self)@, action: asked@ }) == machine::ask(
                old(self).base(),
                mode@,
                action@,
            ),
    {
        self.mode = mode;
        action
    }

    /// Ends the run with `error`.
    fn fail(&mut self, error: LoxResult) -> (action: Action<'a>)
        requires
            old(self).wf(),
        ensures
            final(self).wf(),
            (Step { machine: final(self)@, action: action@ }) == machine::failed(
                old(self).base(),
                error@,
            ),
    {
        proof {
            self.environment.lemma_wf();
        }
        self.stack.clear();
        self.current = 0;
        self.mode = Mode::Idle;
        proof {
            assert(frame_views(self.stack@) =~= Seq::empty());
        }
        Action::Failed(error)
    }

    /// Ends the run with a failure of the interpreter itself.
    fn broken(&mut self, message: &str) -> (action: Action<'a>)
        requires
            old(self).wf(),
        ensures
            final(self).wf(),
            (Step { machine: final(self)@, action: action@ }) == machine::broken(
                old(self).base(),
                message@,
            ),
    {
        self.fail(LoxResult::new_system_error(message))
    }

    /// Puts `frame` on the stack.
    fn push(&mut self, frame: Frame<'a>)
        requires
            old(self).wf(),
        ensures
            final(self).wf(),
            final(self).base() == machine::pushed(old(self).base(), frame@),
            final(self).mode == old(self).mode,
    {
        let ghost before = frame_views(self.stack@);
        self.stack.push(frame);
        proof {
            assert(frame_views(self.stack@) =~= before.push(frame@));
        }
    }

    /// Takes the top frame off the stack.
    fn pop(&mut self) -> (frame: Option<Frame<'a>>)
        requires
            old(self).wf(),
        ensures
            final(self).wf(),
            final(self).mode == old(self).mode,
            match frame {
                Some(frame) => old(self).base().stack.len() > 0 && frame@
                    == old(self).base().stack.last() && final(self).base() == machine::popped(
                    old(self).base(),
                ),
                None => old(self).base().stack.len() == 0 && final(self).base()
                    == old(self).base(),
            },
    {
        let ghost before = frame_views(self.stack@);
        let frame = self.stack.pop();
        proof {
            if frame is Some {
                assert(frame_views(self.stack@) =~= before.drop_last());
            }
        }
        frame
    }

    /// Binds `name` to `value` in the current scope.
    fn define(&mut self, name: &String, value: Object<'a>)
        requires
            old(self).wf(),
        ensures
            final(self).wf(),
            final(self).base() == machine::defined(
                old(self).base(),
                old(self).base().current,
                name@,
                value@,
            ),
            final(self).mode == old(self).mode,
    {
        self.environment.define(self.current, name.clone(), value);
    }

    /// Whether a loop is under way.
    fn in_loop(&self) -> (found: bool)
        ensures
            found == machine::in_loop(self.base().stack),
    {
        let mut i: usize = 0;
        while i < self.stack.len()
            invariant
                i <= self.stack.len(),
                forall|j: int|
                    0 <= j < i ==> !(frame_views(self.stack@)[j] is Condition || frame_views(
                        self.stack@,
                    )[j] is Body),
            decreases self.stack.len() - i,
        {
            match &self.stack[i] {
                Frame::Condition(_) => {
                    assert(frame_views(self.stack@)[i as int] is Condition);
                    return true;
                },
                Frame::Body(_) => {
                    assert(frame_views(self.stack@)[i as int] is Body);
                    return true;
                },
                _ => {},
            }
            i += 1;
        }
        false
    }

    /// Executes `stmt`.
    fn execute(&mut self, stmt: &'a Stmt) -> (action: Action<'a>)
        requires
            old(self).wf(),
        ensures
            final(self).wf(),
            (Step { machine: final(self)@, action: action@ }) == machine::step_execute(
                old(self).base(),
                *stmt,
            ),
    {
        match stmt {
            Stmt::Expression(s) => {
                self.push(Frame::Discard);
                self.go(Mode::Evaluate(&s.expression))
            },
            Stmt::Print(s) => {
                self.push(Frame::Print);
                self.go(Mode::Evaluate(&s.expression))
            },
            Stmt::Var(s) => match &s.initializer {
                Some(initializer) => {
                    self.push(Frame::Define(&s.name));
                    self.go(Mode::Evaluate(initializer))
                },
                None => {
                    self.define(&s.name.lexeme, Object::Nil);
                    self.go(Mode::Done)
                },
            },
            Stmt::Block(s) => {
                let saved: usize = self.current;
                self.current = self.environment.new_with_enclosing(saved);
                self.push(Frame::Block { statements: &s.statements, next: 0, saved });
                self.go(Mode::Done)
            },
            Stmt::If(s) => {
                self.push(Frame::If(s));
                self.go(Mode::Evaluate(&s.condition))
            },
            Stmt::While(s) => {
                self.push(Frame::Condition(s));
                self.go(Mode::Evaluate(&s.condition))
            },
            Stmt::Break(s) => {
                if self.in_loop() {
                    self.go(Mode::Break)
                } else {
                    self.fail(
                        LoxResult::new_runtime_error(
                            s.token.clone(),
                            String::from_str("Cannot break outside of loop"),
                        ),
                    )
                }
            },
            Stmt::Function(s) => {
                let function = LoxFunction::new(s, self.current);
                self.define(&s.name.lexeme, Object::Func(Callable::Function(function)));
                self.go(Mode::Done)
            },
            Stmt::Return(s) => match &s.value {
                Some(value) => {
                    self.push(Frame::Return(&s.keyword));
                    self.go(Mode::Evaluate(value))
                },
                None => self.go(Mode::Return { value: Object::Nil, keyword: &s.keyword }),
            },
        }
    }

    /// Evaluates `expr`.
    fn evaluate(&mut self, expr: &'a Expr) -> (action: Action<'a>)
        requires
            old(self).wf(),
        ensures
            final(self).wf(),
            (Step { machine: final(self)@, action: action@ }) == machine::step_evaluate(
                old(self).base(),
                *expr,
            ),
    {
        match expr {
            Expr::Literal(e) => match &e.value {
                Literal::Number(text) => self.ask(Mode::AwaitNumber, Action::Decode(text.clone())),
                Literal::Str(text) => self.go(Mode::Value(Object::Str(text.clone()))),
                Literal::Bool(b) => self.go(Mode::Value(Object::Bool(*b))),
                Literal::Nil => self.go(Mode::Value(Object::Nil)),
            },
            Expr::Grouping(e) => self.go(Mode::Evaluate(&*e.expression)),
            Expr::Unary(e) => {
                self.push(Frame::Unary(e));
                self.go(Mode::Evaluate(&*e.right))
            },
            Expr::Binary(e) => {
                self.push(Frame::Left(e));
                self.go(Mode::Evaluate(&*e.left))
            },
            Expr::Logical(e) => {
                self.push(Frame::Logical(e));
                self.go(Mode::Evaluate(&*e.left))
            },
            Expr::Variable(e) => match self.environment.get(self.current, &e.name) {
                Ok(value) => self.go(Mode::Value(value)),
                Err(error) => self.fail(error),
            },
            Expr::Assign(e) => {
                self.push(Frame::Assign(e));
                self.go(Mode::Evaluate(&*e.value))
            },
            Expr::Call(e) => {
                let arguments: Vec<Object<'a>> = Vec::new();
                assert(object_views(arguments@) =~= Seq::empty());
                self.push(Frame::Call { call: e, callee: None, arguments });
                self.go(Mode::Evaluate(&*e.callee))
            },
        }
    }

    /// Hands `value` to `frame`, which was on top of the stack.
    fn value(&mut self, frame: Frame<'a>, value: Object<'a>) -> (action: Action<'a>)
        requires
            old(self).wf(),
        ensures
            final(self).wf(),
            (Step { machine: final(self)@, action: action@ }) == machine::step_value(
                old(self).base(),
                frame@,
                value@,
            ),
    {
        match frame {
            Frame::Discard => self.go(Mode::Done),
            Frame::Print => self.print(value),
            Frame::Define(name) => {
                self.define(&name.lexeme, value);
                self.go(Mode::Done)
            },
            Frame::If(s) => {
                if value.is_truthy() {
                    self.go(Mode::Execute(&*s.then_branch))
                } else {
                    match &s.else_branch {
                        Some(branch) => self.go(Mode::Execute(&**branch)),
                        None => self.go(Mode::Done),
                    }
                }
            },
            Frame::Condition(s) => {
                if value.is_truthy() {
                    self.push(Frame::Body(s));
                    self.go(Mode::Execute(&*s.body))
                } else {
                    self.go(Mode::Done)
                }
            },
            Frame::Return(keyword) => self.go(Mode::Return { value, keyword }),
            Frame::Unary(e) => self.unary(e, value),
            Frame::Left(e) => {
                self.push(Frame::Right(e, value));
                self.go(Mode::Evaluate(&*e.right))
            },
            Frame::Right(e, left) => self.binary(e, left, value),
            Frame::Logical(e) => {
                if e.operator.is(TokenType::Or) == value.is_truthy() {
                    self.go(Mode::Value(value))
                } else {
                    self.go(Mode::Evaluate(&*e.right))
                }
            },
            Frame::Assign(e) => {
                let ghost scopes = self.environment@;
                match self.environment.assign(self.current, &e.name, value.clone()) {
                    Ok(_) => {
                        assert(self.environment@.len() == scopes.len());
                        self.go(Mode::Value(value))
                    },
                    Err(error) => self.fail(error),
                }
            },
            Frame::Call { call, callee, arguments } => self.argument(
                call,
                callee,
                arguments,
                value,
            ),
            _ => self.broken("A statement was under way."),
        }
    }

    /// Writes `value`.
    fn print(&mut self, value: Object<'a>) -> (action: Action<'a>)
        requires
            old(self).wf(),
        ensures
            final(self).wf(),
            (Step { machine: final(self)@, action: action@ }) == machine::step_value(
                old(self).base(),
                FrameView::Print,
                value@,
            ),
    {
        match value {
            Object::Num(bits) => self.ask(Mode::AwaitText(TextUse::Print), Action::Format(bits)),
            Object::ArithmeticError => self.broken("A failed operation has no text."),
            Object::ComparisonError => self.broken("A failed operation has no text."),
            other => match other.to_text() {
                Some(text) => self.ask(Mode::Done, Action::Print(text)),
                None => self.broken("A failed operation has no text."),
            },
        }
    }

    /// Applies a unary operator.
    fn unary(&mut self, e: &'a UnaryExpr, value: Object<'a>) -> (action: Action<'a>)
        requires
            old(self).wf(),
        ensures
            final(self).wf(),
            (Step { machine: final(self)@, action: action@ }) == machine::step_unary(
                old(self).base(),
                *e,
                value@,
            ),
    {
        match e.operator.token_type() {
            TokenType::Minus => self.go(Mode::Value(value.negate())),
            TokenType::Bang => self.go(Mode::Value(Object::Bool(!value.is_truthy()))),
            _ => self.fail(LoxResult::error(e.operator.line, "Unreachable error")),
        }
    }

    /// What a binary operator of kind `kind` makes of its operands.
    fn apply(kind: TokenType, left: Object<'a>, right: Object<'a>) -> (outcome: Option<
        Outcome<'a>,
    >)
        ensures
            match outcome {
                Some(outcome) => machine::applied(kind, left@, right@) == Some(outcome@),
                None => machine::applied(kind, left@, right@) is None,
            },
    {
        match kind {
            TokenType::Minus => Some(left.arithmetic(Operation::Subtract, right)),
            TokenType::Slash => Some(left.arithmetic(Operation::Divide, right)),
            TokenType::Star => Some(left.arithmetic(Operation::Multiply, right)),
            TokenType::Plus => Some(left.add(right)),
            TokenType::Greater => Some(Outcome::Value(left.greater(right))),
            TokenType::GreaterEqual => Some(Outcome::Value(left.greater_eq(right))),
            TokenType::Less => Some(Outcome::Value(left.less(right))),
            TokenType::LessEqual => Some(Outcome::Value(left.less_eq(right))),
            TokenType::BangEqual => Some(Outcome::Value(left.neq(right))),
            TokenType::Equal => Some(Outcome::Value(left.eq(right))),
            _ => None,
        }
    }

    /// Applies a binary operator. An operation that its operands do not
    /// allow is an error at the operator.
    fn binary(&mut self, e: &'a BinaryExpr, left: Object<'a>, right: Object<'a>) -> (action:
        Action<'a>)
        requires
            old(self).wf(),
        ensures
            final(self).wf(),
            (Step { machine: final(self)@, action: action@ }) == machine::step_binary(
                old(self).base(),
                *e,
                left@,
                right@,
            ),
    {
        match Self::apply(e.operator.token_type(), left, right) {
            Some(Outcome::Value(Object::ArithmeticError)) => self.fail(illegal_error(&e.operator)),
            Some(Outcome::Value(Object::ComparisonError)) => self.fail(illegal_error(&e.operator)),
            Some(Outcome::Value(value)) => self.go(Mode::Value(value)),
            Some(Outcome::Number { operation, left, right }) => self.ask(
                Mode::AwaitNumber,
                Action::Arithmetic { operation, left, right },
            ),
            Some(Outcome::Text { number, text, number_first }) => {
                let usage = if number_first {
                    TextUse::Before(text)
                } else {
                    TextUse::After(text)
                };
                self.ask(Mode::AwaitText(usage), Action::Format(number))
            },
            None => self.fail(LoxResult::error(e.operator.line, "Unreachable error")),
        }
    }

    /// Takes the callee or the next argument of a call, and makes the call
    /// when it has them all.
    fn argument(
        &mut self,
        call: &'a CallExpr,
        callee: Option<Object<'a>>,
        arguments: Vec<Object<'a>>,
        value: Object<'a>,
    ) -> (action: Action<'a>)
        requires
            old(self).wf(),
        ensures
            final(self).wf(),
            (Step { machine: final(self)@, action: action@ }) == machine::step_value(
                old(self).base(),
                FrameView::Call {
                    call: *call,
                    callee: match callee {
                        Some(callee) => Some(callee@),
                        None => None,
                    },
                    arguments: object_views(arguments@),
                },
                value@,
            ),
    {
        let mut arguments = arguments;
        let ghost before = object_views(arguments@);
        let function = match callee {
            Some(function) => {
                arguments.push(value);
                proof {
                    assert(object_views(arguments@) =~= before.push(value@));
                }
                function
            },
            None => value,
        };
        if arguments.len() < call.arguments.len() {
            let next = &call.arguments[arguments.len()];
            self.push(Frame::Call { call, callee: Some(function), arguments });
            self.go(Mode::Evaluate(next))
        } else {
            self.invoke(&call.paren, function, arguments)
        }
    }

    /// Calls `callee` with `arguments`.
    fn invoke(&mut self, paren: &'a Token, callee: Object<'a>, arguments: Vec<Object<'a>>) -> (action:
        Action<'a>)
        requires
            old(self).wf(),
        ensures
            final(self).wf(),
            (Step { machine: final(self)@, action: action@ }) == machine::step_invoke(
                old(self).base(),
                *paren,
                callee@,
                object_views(arguments@),
            ),
    {
        match callee {
            Object::Func(function) => {
                let arity: usize = function.arity();
                if arguments.len() != arity {
                    let mut message = String::from_str("Expected ");
                    push_decimal(&mut message, arity);
                    message.append(" arguments but got ");
                    push_decimal(&mut message, arguments.len());
                    message.append(".");
                    self.fail(LoxResult::new_runtime_error(paren.clone(), message))
                } else {
                    match function {
                        Callable::Native(_) => self.ask(Mode::AwaitNumber, Action::Clock),
                        Callable::Function(f) => self.enter(paren, f, arguments),
                    }
                }
            },
            _ => self.fail(
                LoxResult::new_runtime_error(
                    paren.clone(),
                    String::from_str("Can only call functions and classes."),
                ),
            ),
        }
    }

    /// Starts the body of `function` in a new scope that holds the arguments.
    fn enter(
        &mut self,
        paren: &'a Token,
        function: LoxFunction<'a>,
        arguments: Vec<Object<'a>>,
    ) -> (action: Action<'a>)
        requires
            old(self).wf(),
            arguments@.len() == function.declaration.params@.len(),
        ensures
            final(self).wf(),
            (Step { machine: final(self)@, action: action@ }) == machine::step_invoke(
                old(self).base(),
                *paren,
                ObjectView::Func(Callable::Function(function)@),
                object_views(arguments@),
            ),
    {
        if function.closure >= self.environment.len() {
            return self.broken("The scope of the function is gone.");
        }
        let saved: usize = self.current;
        let ghost outside = self.base();
        let scope: usize = self.environment.new_with_enclosing(function.closure);
        let ghost inside = self.environment@;
        let params = &function.declaration.params;
        let mut i: usize = 0;
        while i < arguments.len()
            invariant
                i <= arguments.len() == params.len(),
                self.environment.wf(),
                scope < self.environment@.len(),
                self.environment@.len() == inside.len(),
                self.current == saved,
                self.stack == old(self).stack,
                self.mode == old(self).mode,
                self.environment@ == machine::with_arguments(
                    inside,
                    scope as int,
                    params@,
                    object_views(arguments@),
                    i as nat,
                ),
            decreases arguments.len() - i,
        {
            self.environment.define(scope, params[i].lexeme.clone(), arguments[i].clone());
            i += 1;
        }
        self.push(Frame::Invoke);
        self.push(Frame::Block { statements: &function.declaration.body, next: 0, saved });
        self.current = scope;
        self.go(Mode::Done)
    }

    /// Goes on after a statement, for `frame`, which was on top of the stack.
    fn done(&mut self, frame: Frame<'a>) -> (action: Action<'a>)
        requires
            old(self).wf(),
        ensures
            final(self).wf(),
            (Step { machine: final(self)@, action: action@ }) == machine::step_done(
                old(self).base(),
                frame@,
            ),
    {
        match frame {
            Frame::Block { statements, next, saved } => {
                if next < statements.len() {
                    self.push(Frame::Block { statements, next: next + 1, saved });
                    self.go(Mode::Execute(&statements[next]))
                } else if saved < self.environment.len() {
                    self.current = saved;
                    self.go(Mode::Done)
                } else {
                    self.broken("The scope around the block is gone.")
                }
            },
            Frame::Body(s) => {
                self.push(Frame::Condition(s));
                self.go(Mode::Evaluate(&s.condition))
            },
            Frame::Invoke => self.go(Mode::Value(Object::Nil)),
            _ => self.broken("An expression was under way."),
        }
    }

    /// Leaves `frame` for a `break` or `return`, which is `mode`.
    fn leave(&mut self, frame: Frame<'a>, mode: Mode<'a>) -> (action: Action<'a>)
        requires
            old(self).wf(),
        ensures
            final(self).wf(),
            (Step { machine: final(self)@, action: action@ }) == machine::step_leave(
                old(self).base(),
                frame@,
                mode@,
            ),
    {
        match frame {
            Frame::Block { statements, next, saved } => {
                if saved < self.environment.len() {
                    self.current = saved;
                    self.go(mode)
                } else {
                    self.broken("The scope around the block is gone.")
                }
            },
            _ => self.go(mode),
        }
    }

    /// Leaves `frame` for a `break`.
    fn leave_loop(&mut self, frame: Frame<'a>) -> (action: Action<'a>)
        requires
            old(self).wf(),
        ensures
            final(self).wf(),
            (Step { machine: final(self)@, action: action@ }) == machine::step_break(
                old(self).base(),
                frame@,
            ),
    {
        match frame {
            Frame::Condition(_) => self.go(Mode::Done),
            Frame::Body(_) => self.go(Mode::Done),
            other => self.leave(other, Mode::Break),
        }
    }

    /// Leaves `frame` for a `return` of `value`.
    fn leave_call(&mut self, frame: Frame<'a>, value: Object<'a>, keyword: &'a Token) -> (action:
        Action<'a>)
        requires
            old(self).wf(),
        ensures
            final(self).wf(),
            (Step { machine: final(self)@, action: action@ }) == machine::step_return(
                old(self).base(),
                frame@,
                value@,
                *keyword,
            ),
    {
        match frame {
            Frame::Invoke => self.go(Mode::Value(value)),
            other => self.leave(other, Mode::Return { value, keyword }),
        }
    }
}

/// The error of an operator whose operands do not allow it.
fn illegal_error(operator: &Token) -> (err: LoxResult)
    ensures
        err@ == machine::illegal(*operator),
{
    LoxResult::new_runtime_error(operator.clone(), String::from_str("Illegal expression"))
}

} // verus!
