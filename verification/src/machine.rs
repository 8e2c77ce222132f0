//! How a program runs: the states of the interpreter and the step from each
//! state to the next.
//!
//! The interpreter is a machine that takes one step at a time. It walks the
//! syntax tree with a stack of frames, each of which says what is to be done
//! with the value of the expression, or after the statement, that is under
//! way. What the interpreter cannot do itself it asks of its host: arithmetic
//! on doubles and their decimal form, the clock, the output. The host does
//! what the step asks and answers with the next step's event.
use vstd::prelude::*;
use crate::ast::{
    AssignExpr, BinaryExpr, CallExpr, Expr, IfStmt, LogicalExpr, Stmt, UnaryExpr, WhileStmt,
};
use crate::environment::{bound, holder, lookup, undefined, ScopeView};
use crate::error::{decimal, LoxResultView};
use crate::object::{
    arithmetic_of, eq_of, greater_eq_of, greater_of, is_sentinel, less_eq_of, less_of,
    negative_of, neq_of, sum_of, text_of, truthy, CallableView, ObjectView, Operation,
    OutcomeView,
};
use crate::tokens::{LiteralView, Token, TokenType};

verus! {

/// What the host is to do before the next step.
pub enum ActionView {
    /// Nothing.
    Continue,
    /// Write the text and a line feed to the output.
    Print(Seq<char>),
    /// Decode the decimal text of a number, and answer with the number.
    Decode(Seq<char>),
    /// Do the arithmetic on the two doubles, and answer with the result.
    Arithmetic { operation: Operation, left: u64, right: u64 },
    /// Answer with the decimal form of the number.
    Format(u64),
    /// Answer with the time, in seconds, as a number.
    Clock,
    /// Nothing: the run has ended, and no error was met.
    Finished,
    /// Nothing: the run has ended, and the expression has this value.
    Value(ObjectView),
    /// Report the error: the run has ended with it.
    Failed(LoxResultView),
}

/// What the host answers.
pub enum EventView {
    /// Nothing was asked for.
    Resume,
    Number(u64),
    Text(Seq<char>),
}

/// What the text that the host gives is for.
pub enum TextUseView {
    /// It is written to the output.
    Print,
    /// It is joined with this string, which comes behind it.
    Before(Seq<char>),
    /// It is joined with this string, which comes before it.
    After(Seq<char>),
}

/// What is under way.
pub enum ModeView {
    /// Nothing: no program runs.
    Idle,
    /// The statement is to be executed.
    Execute(Stmt),
    /// The expression is to be evaluated.
    Evaluate(Expr),
    /// An expression has been evaluated, to this value.
    Value(ObjectView),
    /// A statement has been executed.
    Done,
    /// A `break` leaves the frames up to the innermost loop.
    Break,
    /// A `return` leaves the frames up to the innermost call.
    Return { value: ObjectView, keyword: Token },
    /// The host was asked for a number, which is the value of an expression.
    AwaitNumber,
    /// The host was asked for the decimal form of a number.
    AwaitText(TextUseView),
}

/// What is to be done when the expression or statement under way is done.
pub enum FrameView {
    /// Execute the statements from index `next` on, then go back to the
    /// scope `saved`.
    Block { statements: Seq<Stmt>, next: int, saved: int },
    /// The value is the condition of the loop: run the body, or leave.
    Condition(WhileStmt),
    /// The body of the loop ran: evaluate the condition again.
    Body(WhileStmt),
    /// A call is under way: its value is that of a `return`, or `nil`.
    Invoke,
    /// Drop the value.
    Discard,
    /// Write the value.
    Print,
    /// Define the variable with the value.
    Define(Token),
    /// The value is the condition: execute one of the branches.
    If(IfStmt),
    /// Return the value from the call under way.
    Return(Token),
    /// Apply the operator to the value.
    Unary(UnaryExpr),
    /// The value is the left operand: evaluate the right one.
    Left(BinaryExpr),
    /// The value is the right operand: apply the operator.
    Right(BinaryExpr, ObjectView),
    /// The value is the left operand of `or` or `and`.
    Logical(LogicalExpr),
    /// Assign the value.
    Assign(AssignExpr),
    /// The value is the callee, if there is none yet, or the next argument.
    Call { call: CallExpr, callee: Option<ObjectView>, arguments: Seq<ObjectView> },
}

/// The state of the interpreter without what is under way.
pub struct Core {
    pub scopes: Seq<ScopeView>,
    /// The index of the scope that the code under way runs in.
    pub current: int,
    pub stack: Seq<FrameView>,
}

/// The state of the interpreter.
pub struct MachineView {
    pub core: Core,
    pub mode: ModeView,
}

/// The state after a step, and what the step asks of the host.
pub struct Step {
    pub machine: MachineView,
    pub action: ActionView,
}

/// Go on with `mode`.
pub open spec fn to(core: Core, mode: ModeView) -> Step {
    Step { machine: MachineView { core, mode }, action: ActionView::Continue }
}

/// Ask the host for `action`, and go on with `mode`.
pub open spec fn ask(core: Core, mode: ModeView, action: ActionView) -> Step {
    Step { machine: MachineView { core, mode }, action }
}

/// The run ends with `error`: every frame is dropped and the outermost scope
/// is the current one again.
pub open spec fn failed(core: Core, error: LoxResultView) -> Step {
    Step {
        machine: MachineView {
            core: Core { scopes: core.scopes, current: 0, stack: Seq::empty() },
            mode: ModeView::Idle,
        },
        action: ActionView::Failed(error),
    }
}

/// A failure of the interpreter itself.
pub open spec fn broken(core: Core, message: Seq<char>) -> Step {
    failed(core, LoxResultView::SystemError { message })
}

/// `core` with `frame` on top of the stack.
pub open spec fn pushed(core: Core, frame: FrameView) -> Core {
    Core { scopes: core.scopes, current: core.current, stack: core.stack.push(frame) }
}

/// `core` without the top of the stack.
pub open spec fn popped(core: Core) -> Core {
    Core { scopes: core.scopes, current: core.current, stack: core.stack.drop_last() }
}

/// `core` with `name` bound to `value` in the scope `at`.
pub open spec fn defined(core: Core, at: int, name: Seq<char>, value: ObjectView) -> Core {
    Core { scopes: bound(core.scopes, at, name, value), current: core.current, stack: core.stack }
}

/// `core` with a new scope in the scope `enclosing`, which is the current
/// one from now on.
pub open spec fn entered(core: Core, enclosing: int) -> Core {
    Core {
        scopes: core.scopes.push(ScopeView { enclosing: Some(enclosing), bindings: Map::empty() }),
        current: core.scopes.len() as int,
        stack: core.stack,
    }
}

/// Whether a loop is under way.
pub open spec fn in_loop(stack: Seq<FrameView>) -> bool {
    exists|i: int| 0 <= i < stack.len() && (stack[i] is Condition || stack[i] is Body)
}

/// The error of an operator whose operands do not allow it.
pub open spec fn illegal(operator: Token) -> LoxResultView {
    LoxResultView::RuntimeError { token: operator@, message: "Illegal expression"@ }
}

/// The error of an operator that no expression of its kind has.
pub open spec fn unreachable(operator: Token) -> LoxResultView {
    LoxResultView::LoxError { line: operator.line as nat, message: "Unreachable error"@ }
}

/// The message of a call with the wrong number of arguments.
pub open spec fn arity_message(expected: nat, given: nat) -> Seq<char> {
    "Expected "@ + decimal(expected) + " arguments but got "@ + decimal(given) + "."@
}

/// The step that executes `stmt`.
pub open spec fn step_execute(core: Core, stmt: Stmt) -> Step {
    match stmt {
        Stmt::Expression(s) => to(pushed(core, FrameView::Discard), ModeView::Evaluate(s.expression)),
        Stmt::Print(s) => to(pushed(core, FrameView::Print), ModeView::Evaluate(s.expression)),
        Stmt::Var(s) => match s.initializer {
            Some(initializer) => to(
                pushed(core, FrameView::Define(s.name)),
                ModeView::Evaluate(initializer),
            ),
            None => to(
                defined(core, core.current, s.name.lexeme@, ObjectView::Nil),
                ModeView::Done,
            ),
        },
        Stmt::Block(s) => to(
            pushed(
                entered(core, core.current),
                FrameView::Block { statements: s.statements@, next: 0, saved: core.current },
            ),
            ModeView::Done,
        ),
        Stmt::If(s) => to(pushed(core, FrameView::If(s)), ModeView::Evaluate(s.condition)),
        Stmt::While(s) => to(
            pushed(core, FrameView::Condition(s)),
            ModeView::Evaluate(s.condition),
        ),
        Stmt::Break(s) => if in_loop(core.stack) {
            to(core, ModeView::Break)
        } else {
            failed(
                core,
                LoxResultView::RuntimeError {
                    token: s.token@,
                    message: "Cannot break outside of loop"@,
                },
            )
        },
        Stmt::Function(s) => to(
            defined(
                core,
                core.current,
                s.name.lexeme@,
                ObjectView::Func(
                    CallableView::Function { declaration: s, closure: core.current },
                ),
            ),
            ModeView::Done,
        ),
        Stmt::Return(s) => match s.value {
            Some(value) => to(pushed(core, FrameView::Return(s.keyword)), ModeView::Evaluate(value)),
            None => to(core, ModeView::Return { value: ObjectView::Nil, keyword: s.keyword }),
        },
    }
}

/// The step that evaluates `expr`.
pub open spec fn step_evaluate(core: Core, expr: Expr) -> Step {
    match expr {
        Expr::Literal(e) => match e.value@ {
            LiteralView::Number(text) => ask(core, ModeView::AwaitNumber, ActionView::Decode(text)),
            LiteralView::Str(text) => to(core, ModeView::Value(ObjectView::Str(text))),
            LiteralView::Bool(b) => to(core, ModeView::Value(ObjectView::Bool(b))),
            LiteralView::Nil => to(core, ModeView::Value(ObjectView::Nil)),
        },
        Expr::Grouping(e) => to(core, ModeView::Evaluate(*e.expression)),
        Expr::Unary(e) => to(pushed(core, FrameView::Unary(e)), ModeView::Evaluate(*e.right)),
        Expr::Binary(e) => to(pushed(core, FrameView::Left(e)), ModeView::Evaluate(*e.left)),
        Expr::Logical(e) => to(pushed(core, FrameView::Logical(e)), ModeView::Evaluate(*e.left)),
        Expr::Variable(e) => match lookup(core.scopes, core.current, e.name.lexeme@) {
            Some(value) => to(core, ModeView::Value(value)),
            None => failed(core, undefined(e.name)),
        },
        Expr::Assign(e) => to(pushed(core, FrameView::Assign(e)), ModeView::Evaluate(*e.value)),
        Expr::Call(e) => to(
            pushed(core, FrameView::Call { call: e, callee: None, arguments: Seq::empty() }),
            ModeView::Evaluate(*e.callee),
        ),
    }
}

/// What a binary operator makes of its operands.
pub open spec fn applied(kind: TokenType, left: ObjectView, right: ObjectView) -> Option<
    OutcomeView,
> {
    match kind {
        TokenType::Minus => Some(arithmetic_of(Operation::Subtract, left, right)),
        TokenType::Slash => Some(arithmetic_of(Operation::Divide, left, right)),
        TokenType::Star => Some(arithmetic_of(Operation::Multiply, left, right)),
        TokenType::Plus => Some(sum_of(left, right)),
        TokenType::Greater => Some(OutcomeView::Value(greater_of(left, right))),
        TokenType::GreaterEqual => Some(OutcomeView::Value(greater_eq_of(left, right))),
        TokenType::Less => Some(OutcomeView::Value(less_of(left, right))),
        TokenType::LessEqual => Some(OutcomeView::Value(less_eq_of(left, right))),
        TokenType::BangEqual => Some(OutcomeView::Value(neq_of(left, right))),
        TokenType::Equal => Some(OutcomeView::Value(eq_of(left, right))),
        _ => None,
    }
}

/// The step that applies a binary operator to its two operands.
pub open spec fn step_binary(core: Core, e: BinaryExpr, left: ObjectView, right: ObjectView)
    -> Step {
    match applied(e.operator.ttype, left, right) {
        Some(OutcomeView::Value(value)) => if is_sentinel(value) {
            failed(core, illegal(e.operator))
        } else {
            to(core, ModeView::Value(value))
        },
        Some(OutcomeView::Number { operation, left, right }) => ask(
            core,
            ModeView::AwaitNumber,
            ActionView::Arithmetic { operation, left, right },
        ),
        Some(OutcomeView::Text { number, text, number_first }) => ask(
            core,
            ModeView::AwaitText(
                if number_first {
                    TextUseView::Before(text)
                } else {
                    TextUseView::After(text)
                },
            ),
            ActionView::Format(number),
        ),
        None => failed(core, unreachable(e.operator)),
    }
}

/// The step that applies a unary operator to its operand.
pub open spec fn step_unary(core: Core, e: UnaryExpr, value: ObjectView) -> Step {
    match e.operator.ttype {
        TokenType::Minus => to(core, ModeView::Value(negative_of(value))),
        TokenType::Bang => to(core, ModeView::Value(ObjectView::Bool(!truthy(value)))),
        _ => failed(core, unreachable(e.operator)),
    }
}

/// The scopes with each of the first `n` parameters bound to its argument,
/// in the scope `at`.
pub open spec fn with_arguments(
    scopes: Seq<ScopeView>,
    at: int,
    params: Seq<Token>,
    arguments: Seq<ObjectView>,
    n: nat,
) -> Seq<ScopeView>
    decreases n,
{
    if n == 0 {
        scopes
    } else {
        bound(
            with_arguments(scopes, at, params, arguments, (n - 1) as nat),
            at,
            params[n - 1].lexeme@,
            arguments[n - 1],
        )
    }
}

/// The step that calls `callee` with `arguments`. A function of the program
/// runs its body in a new scope, which lies in the scope that the function
/// was declared in and holds the arguments under the parameters' names.
pub open spec fn step_invoke(
    core: Core,
    paren: Token,
    callee: ObjectView,
    arguments: Seq<ObjectView>,
) -> Step {
    match callee {
        ObjectView::Func(function) => if arguments.len() != function.arity() {
            failed(
                core,
                LoxResultView::RuntimeError {
                    token: paren@,
                    message: arity_message(function.arity(), arguments.len()),
                },
            )
        } else {
            match function {
                CallableView::Native => ask(core, ModeView::AwaitNumber, ActionView::Clock),
                CallableView::Function { declaration, closure } => if 0 <= closure
                    < core.scopes.len() {
                    let inside = entered(core, closure);
                    to(
                        Core {
                            scopes: with_arguments(
                                inside.scopes,
                                inside.current,
                                declaration.params@,
                                arguments,
                                arguments.len(),
                            ),
                            current: inside.current,
                            stack: core.stack.push(FrameView::Invoke).push(
                                FrameView::Block {
                                    statements: declaration.body@,
                                    next: 0,
                                    saved: core.current,
                                },
                            ),
                        },
                        ModeView::Done,
                    )
                } else {
                    broken(core, "The scope of the function is gone."@)
                },
            }
        },
        _ => failed(
            core,
            LoxResultView::RuntimeError {
                token: paren@,
                message: "Can only call functions and classes."@,
            },
        ),
    }
}

/// The step that hands `value` to `frame`, which was on top of the stack of
/// which `core` holds the rest.
pub open spec fn step_value(core: Core, frame: FrameView, value: ObjectView) -> Step {
    match frame {
        FrameView::Discard => to(core, ModeView::Done),
        FrameView::Print => match value {
            ObjectView::Num(bits) => ask(
                core,
                ModeView::AwaitText(TextUseView::Print),
                ActionView::Format(bits),
            ),
            _ => if is_sentinel(value) {
                broken(core, "A failed operation has no text."@)
            } else {
                ask(core, ModeView::Done, ActionView::Print(text_of(value)))
            },
        },
        FrameView::Define(name) => to(
            defined(core, core.current, name.lexeme@, value),
            ModeView::Done,
        ),
        FrameView::If(s) => if truthy(value) {
            to(core, ModeView::Execute(*s.then_branch))
        } else {
            match s.else_branch {
                Some(branch) => to(core, ModeView::Execute(*branch)),
                None => to(core, ModeView::Done),
            }
        },
        FrameView::Condition(s) => if truthy(value) {
            to(pushed(core, FrameView::Body(s)), ModeView::Execute(*s.body))
        } else {
            to(core, ModeView::Done)
        },
        FrameView::Return(keyword) => to(core, ModeView::Return { value, keyword }),
        FrameView::Unary(e) => step_unary(core, e, value),
        FrameView::Left(e) => to(
            pushed(core, FrameView::Right(e, value)),
            ModeView::Evaluate(*e.right),
        ),
        FrameView::Right(e, left) => step_binary(core, e, left, value),
        FrameView::Logical(e) => if (e.operator.ttype == TokenType::Or) == truthy(value) {
            to(core, ModeView::Value(value))
        } else {
            to(core, ModeView::Evaluate(*e.right))
        },
        FrameView::Assign(e) => match holder(core.scopes, core.current, e.name.lexeme@) {
            Some(at) => to(defined(core, at, e.name.lexeme@, value), ModeView::Value(value)),
            None => failed(core, undefined(e.name)),
        },
        FrameView::Call { call, callee, arguments } => {
            let function = match callee {
                Some(function) => function,
                None => value,
            };
            let given = match callee {
                Some(_) => arguments.push(value),
                None => arguments,
            };
            if given.len() < call.arguments@.len() {
                to(
                    pushed(
                        core,
                        FrameView::Call { call, callee: Some(function), arguments: given },
                    ),
                    ModeView::Evaluate(call.arguments@[given.len() as int]),
                )
            } else {
                step_invoke(core, call.paren, function, given)
            }
        },
        _ => broken(core, "A statement was under way."@),
    }
}

/// `core` back in the scope `saved`, as when a block is left.
pub open spec fn left(core: Core, saved: int) -> Core {
    Core { scopes: core.scopes, current: saved, stack: core.stack }
}

/// The step after a statement is done, for `frame`, which was on top of the
/// stack of which `core` holds the rest.
pub open spec fn step_done(core: Core, frame: FrameView) -> Step {
    match frame {
        FrameView::Block { statements, next, saved } => if 0 <= next < statements.len() {
            to(
                pushed(core, FrameView::Block { statements, next: next + 1, saved }),
                ModeView::Execute(statements[next]),
            )
        } else if 0 <= saved < core.scopes.len() {
            to(left(core, saved), ModeView::Done)
        } else {
            broken(core, "The scope around the block is gone."@)
        },
        FrameView::Body(s) => to(
            pushed(core, FrameView::Condition(s)),
            ModeView::Evaluate(s.condition),
        ),
        FrameView::Invoke => to(core, ModeView::Value(ObjectView::Nil)),
        _ => broken(core, "An expression was under way."@),
    }
}

/// The step of a `break` or `return` past `frame`: a block that is left
/// gives back its scope, and every other frame is dropped. `mode` is the
/// `break` or `return` under way.
pub open spec fn step_leave(core: Core, frame: FrameView, mode: ModeView) -> Step {
    match frame {
        FrameView::Block { saved, .. } => if 0 <= saved < core.scopes.len() {
            to(left(core, saved), mode)
        } else {
            broken(core, "The scope around the block is gone."@)
        },
        _ => to(core, mode),
    }
}

/// The step of a `break`: the innermost loop ends.
pub open spec fn step_break(core: Core, frame: FrameView) -> Step {
    if frame is Condition || frame is Body {
        to(core, ModeView::Done)
    } else {
        step_leave(core, frame, ModeView::Break)
    }
}

/// The step of a `return`: the innermost call ends with `value`.
pub open spec fn step_return(core: Core, frame: FrameView, value: ObjectView, keyword: Token)
    -> Step {
    if frame is Invoke {
        to(core, ModeView::Value(value))
    } else {
        step_leave(core, frame, ModeView::Return { value, keyword })
    }
}

/// The step that takes the text that the host was asked for.
pub open spec fn step_text(core: Core, usage: TextUseView, event: EventView) -> Step {
    match event {
        EventView::Text(text) => match usage {
            TextUseView::Print => ask(core, ModeView::Done, ActionView::Print(text)),
            TextUseView::Before(behind) => to(core, ModeView::Value(ObjectView::Str(text + behind))),
            TextUseView::After(before) => to(core, ModeView::Value(ObjectView::Str(before + text))),
        },
        _ => broken(core, "The host was asked for a text."@),
    }
}

/// The step that takes the number that the host was asked for.
pub open spec fn step_number(core: Core, event: EventView) -> Step {
    match event {
        EventView::Number(bits) => to(core, ModeView::Value(ObjectView::Num(bits))),
        _ => broken(core, "The host was asked for a number."@),
    }
}

/// One step of the interpreter. The run of a program ends when its last
/// statement is done, and the run of an expression with its value. A `break`
/// that finds no loop is a failure of the interpreter itself; a `return` that
/// finds no call is an error of the program.
pub open spec fn step(machine: MachineView, event: EventView) -> Step {
    let core = machine.core;
    let rest = popped(core);
    match machine.mode {
        ModeView::Idle => ask(core, ModeView::Idle, ActionView::Finished),
        ModeView::Execute(stmt) => step_execute(core, stmt),
        ModeView::Evaluate(expr) => step_evaluate(core, expr),
        ModeView::Value(value) => if core.stack.len() == 0 {
            ask(core, ModeView::Idle, ActionView::Value(value))
        } else {
            step_value(rest, core.stack.last(), value)
        },
        ModeView::Done => if core.stack.len() == 0 {
            ask(core, ModeView::Idle, ActionView::Finished)
        } else {
            step_done(rest, core.stack.last())
        },
        ModeView::Break => if core.stack.len() == 0 {
            broken(core, "No loop takes the break."@)
        } else {
            step_break(rest, core.stack.last())
        },
        ModeView::Return { value, keyword } => if core.stack.len() == 0 {
            failed(
                core,
                LoxResultView::RuntimeError {
                    token: keyword@,
                    message: "Cannot return from top-level code."@,
                },
            )
        } else {
            step_return(rest, core.stack.last(), value, keyword)
        },
        ModeView::AwaitNumber => step_number(core, event),
        ModeView::AwaitText(usage) => step_text(core, usage, event),
    }
}

/// The state in which a program starts to run: its statements are a block
/// in the outermost scope.
pub open spec fn loaded(scopes: Seq<ScopeView>, statements: Seq<Stmt>) -> MachineView {
    MachineView {
        core: Core {
            scopes,
            current: 0,
            stack: seq![FrameView::Block { statements, next: 0, saved: 0 }],
        },
        mode: ModeView::Done,
    }
}

/// The state in which an expression starts to be evaluated, in the outermost
/// scope.
pub open spec fn evaluating(scopes: Seq<ScopeView>, expr: Expr) -> MachineView {
    MachineView {
        core: Core { scopes, current: 0, stack: Seq::empty() },
        mode: ModeView::Evaluate(expr),
    }
}

/// The arithmetic of an operator on numbers: `+`, `-`, `*` and `/`.
pub open spec fn operation_of(kind: TokenType) -> Option<Operation> {
    match kind {
        TokenType::Plus => Some(Operation::Add),
        TokenType::Minus => Some(Operation::Subtract),
        TokenType::Star => Some(Operation::Multiply),
        TokenType::Slash => Some(Operation::Divide),
        _ => None,
    }
}

/// Arithmetic on two numbers is the host's: the step asks for the operation
/// of the operator on the two numbers as they are, and the number that the
/// host answers with is the value of the expression.
pub proof fn law_arithmetic_is_the_hosts(
    core: Core,
    e: BinaryExpr,
    left: u64,
    right: u64,
    answer: u64,
)
    requires
        operation_of(e.operator.ttype) is Some,
    ensures
        step_binary(core, e, ObjectView::Num(left), ObjectView::Num(right)) == ask(
            core,
            ModeView::AwaitNumber,
            ActionView::Arithmetic { operation: operation_of(e.operator.ttype)->0, left, right },
        ),
        step(MachineView { core, mode: ModeView::AwaitNumber }, EventView::Number(answer)) == to(
            core,
            ModeView::Value(ObjectView::Num(answer)),
        ),
{
}

/// An operator that its operands do not allow ends the run with an error at
/// the operator: `-`, `*` and `/` want two numbers, `+` two numbers or
/// strings or one of each, and the comparisons two numbers.
pub proof fn law_operands_must_fit(core: Core, e: BinaryExpr, left: ObjectView, right: ObjectView)
    requires
        !is_sentinel(left),
        !is_sentinel(right),
    ensures
        ({
            let kind = e.operator.ttype;
            let numbers = left is Num && right is Num;
            let texts = (left is Num || left is Str) && (right is Num || right is Str);
            &&& (kind == TokenType::Minus || kind == TokenType::Star || kind == TokenType::Slash)
                && !numbers ==> step_binary(core, e, left, right) == failed(
                core,
                illegal(e.operator),
            )
            &&& kind == TokenType::Plus && !texts ==> step_binary(core, e, left, right) == failed(
                core,
                illegal(e.operator),
            )
            &&& (kind == TokenType::Greater || kind == TokenType::GreaterEqual || kind
                == TokenType::Less || kind == TokenType::LessEqual) && !numbers ==> step_binary(
                core,
                e,
                left,
                right,
            ) == failed(core, illegal(e.operator))
        }),
{
}

/// No step of an operator makes a value of what stands for a failed
/// operation: such a value never reaches a variable, a frame or the output.
pub proof fn law_failed_operations_are_errors(
    core: Core,
    e: BinaryExpr,
    left: ObjectView,
    right: ObjectView,
)
    ensures
        step_binary(core, e, left, right).machine.mode matches ModeView::Value(value)
            ==> !is_sentinel(value),
{
}

/// `break` outside every loop ends the run with an error at the `break`.
/// Inside a loop it leaves one frame with each step, a block giving back
/// its scope, until it meets the frame of a loop: that loop ends, and the
/// frames below it, those of the loops around it among them, stay.
pub proof fn law_break_ends_the_innermost_loop(core: Core, s: crate::ast::BreakStmt)
    ensures
        !in_loop(core.stack) ==> step_execute(core, Stmt::Break(s)) == failed(
            core,
            LoxResultView::RuntimeError {
                token: s.token@,
                message: "Cannot break outside of loop"@,
            },
        ),
        in_loop(core.stack) ==> step_execute(core, Stmt::Break(s)) == to(core, ModeView::Break),
        core.stack.len() > 0 ==> ({
            let next = step(
                MachineView { core, mode: ModeView::Break },
                EventView::Resume,
            ).machine;
            let top = core.stack.last();
            &&& (top is Condition || top is Body) ==> next.mode is Done && next.core == popped(
                core,
            )
            &&& !(top is Condition || top is Body) && next.mode is Break ==> next.core.stack
                == core.stack.drop_last()
        }),
{
}

/// A block runs in a scope of its own, which lies in the scope around it,
/// and gives that scope back when its statements are done.
pub proof fn law_block_has_its_own_scope(core: Core, s: crate::ast::BlockStmt)
    requires
        0 <= core.current < core.scopes.len(),
    ensures
        ({
            let inside = step_execute(core, Stmt::Block(s)).machine.core;
            let frame = inside.stack.last();
            let after = step_done(
                Core {
                    scopes: inside.scopes,
                    current: inside.current,
                    stack: inside.stack.drop_last(),
                },
                FrameView::Block {
                    statements: s.statements@,
                    next: s.statements@.len() as int,
                    saved: core.current,
                },
            ).machine.core;
            &&& inside.current == core.scopes.len()
            &&& inside.scopes[inside.current].enclosing == Some(core.current)
            &&& inside.scopes[inside.current].bindings == Map::<Seq<char>, ObjectView>::empty()
            &&& frame == (FrameView::Block {
                statements: s.statements@,
                next: 0,
                saved: core.current,
            })
            &&& after.current == core.current
            &&& after.stack == core.stack
        }),
{
    let inside = step_execute(core, Stmt::Block(s)).machine.core;
    assert(inside.stack.drop_last() =~= core.stack);
}

/// Whether the value, if it is a function of the program, closes over one
/// of the first `n` scopes.
pub open spec fn value_ok(value: ObjectView, n: int) -> bool {
    match value {
        ObjectView::Func(CallableView::Function { closure, .. }) => 0 <= closure < n,
        _ => true,
    }
}

/// Whether the frame refers to none but the first `n` scopes.
pub open spec fn frame_ok(frame: FrameView, n: int) -> bool {
    match frame {
        FrameView::Block { saved, .. } => 0 <= saved < n,
        FrameView::Right(_, left) => value_ok(left, n),
        FrameView::Call { callee, arguments, .. } => {
            &&& callee matches Some(function) ==> value_ok(function, n)
            &&& forall|i: int| 0 <= i < arguments.len() ==> value_ok(#[trigger] arguments[i], n)
        },
        _ => true,
    }
}

/// Whether what is under way refers to none but the first `n` scopes.
pub open spec fn mode_ok(mode: ModeView, n: int) -> bool {
    match mode {
        ModeView::Value(value) => value_ok(value, n),
        ModeView::Return { value, .. } => value_ok(value, n),
        _ => true,
    }
}

/// Whether every function that a variable holds closes over a scope that
/// there is.
pub open spec fn scopes_ok(scopes: Seq<ScopeView>) -> bool {
    forall|i: int, name: Seq<char>|
        0 <= i < scopes.len() && (#[trigger] scopes[i].bindings.dom().contains(name))
            ==> value_ok(scopes[i].bindings[name], scopes.len() as int)
}

/// Whether every frame refers to scopes that there are.
pub open spec fn stack_ok(stack: Seq<FrameView>, n: int) -> bool {
    forall|j: int| 0 <= j < stack.len() ==> frame_ok(#[trigger] stack[j], n)
}

/// Whether the state refers to scopes that there are only: the current
/// scope, those that blocks go back to, and those that functions close over.
pub open spec fn sound(machine: MachineView) -> bool {
    let n = machine.core.scopes.len() as int;
    &&& 0 <= machine.core.current < n
    &&& scopes_ok(machine.core.scopes)
    &&& stack_ok(machine.core.stack, n)
    &&& mode_ok(machine.mode, n)
}

/// Whether the step ends the run because a scope that the state refers to
/// is gone.
pub open spec fn lost_a_scope(step: Step) -> bool {
    step.action == ActionView::Failed(
        LoxResultView::SystemError { message: "The scope of the function is gone."@ },
    ) || step.action == ActionView::Failed(
        LoxResultView::SystemError { message: "The scope around the block is gone."@ },
    )
}

proof fn lemma_bound_ok(scopes: Seq<ScopeView>, at: int, name: Seq<char>, value: ObjectView)
    requires
        scopes_ok(scopes),
        0 <= at < scopes.len(),
        value_ok(value, scopes.len() as int),
    ensures
        scopes_ok(bound(scopes, at, name, value)),
        bound(scopes, at, name, value).len() == scopes.len(),
{
    let after = bound(scopes, at, name, value);
    assert forall|i: int, k: Seq<char>|
        0 <= i < after.len() && (#[trigger] after[i].bindings.dom().contains(k)) implies value_ok(
        after[i].bindings[k],
        after.len() as int,
    ) by {
        if i == at {
            if k != name {
                assert(scopes[i].bindings.dom().contains(k));
            }
        } else {
            assert(scopes[i].bindings.dom().contains(k));
        }
    }
}

proof fn lemma_entered_ok(scopes: Seq<ScopeView>, enclosing: int)
    requires
        scopes_ok(scopes),
    ensures
        scopes_ok(scopes.push(ScopeView { enclosing: Some(enclosing), bindings: Map::empty() })),
{
    let after = scopes.push(ScopeView { enclosing: Some(enclosing), bindings: Map::empty() });
    assert forall|i: int, k: Seq<char>|
        0 <= i < after.len() && (#[trigger] after[i].bindings.dom().contains(k)) implies value_ok(
        after[i].bindings[k],
        after.len() as int,
    ) by {
        if i < scopes.len() {
            assert(scopes[i].bindings.dom().contains(k));
        }
    }
}

proof fn lemma_with_arguments_ok(
    scopes: Seq<ScopeView>,
    at: int,
    params: Seq<Token>,
    arguments: Seq<ObjectView>,
    n: nat,
)
    requires
        scopes_ok(scopes),
        0 <= at < scopes.len(),
        n <= arguments.len(),
        forall|i: int|
            0 <= i < arguments.len() ==> value_ok(#[trigger] arguments[i], scopes.len() as int),
    ensures
        scopes_ok(with_arguments(scopes, at, params, arguments, n)),
        with_arguments(scopes, at, params, arguments, n).len() == scopes.len(),
    decreases n,
{
    if n > 0 {
        lemma_with_arguments_ok(scopes, at, params, arguments, (n - 1) as nat);
        lemma_bound_ok(
            with_arguments(scopes, at, params, arguments, (n - 1) as nat),
            at,
            params[n - 1].lexeme@,
            arguments[n - 1],
        );
    }
}

proof fn lemma_stack_ok_grows(stack: Seq<FrameView>, n: int, m: int)
    requires
        stack_ok(stack, n),
        n <= m,
    ensures
        stack_ok(stack, m),
{
    assert forall|j: int| 0 <= j < stack.len() implies frame_ok(#[trigger] stack[j], m) by {
        assert(frame_ok(stack[j], n));
    }
}

proof fn lemma_stack_push(stack: Seq<FrameView>, frame: FrameView, n: int)
    requires
        stack_ok(stack, n),
        frame_ok(frame, n),
    ensures
        stack_ok(stack.push(frame), n),
{
    assert forall|j: int| 0 <= j < stack.push(frame).len() implies frame_ok(
        #[trigger] stack.push(frame)[j],
        n,
    ) by {
        if j < stack.len() {
            assert(frame_ok(stack[j], n));
        }
    }
}

proof fn lemma_stack_pop(stack: Seq<FrameView>, n: int)
    requires
        stack_ok(stack, n),
        stack.len() > 0,
    ensures
        stack_ok(stack.drop_last(), n),
        frame_ok(stack.last(), n),
{
    assert forall|j: int| 0 <= j < stack.drop_last().len() implies frame_ok(
        #[trigger] stack.drop_last()[j],
        n,
    ) by {
        assert(frame_ok(stack[j], n));
    }
}

proof fn lemma_lookup_ok(scopes: Seq<ScopeView>, scope: int, name: Seq<char>)
    requires
        scopes_ok(scopes),
    ensures
        match lookup(scopes, scope, name) {
            Some(value) => value_ok(value, scopes.len() as int),
            None => true,
        },
        match holder(scopes, scope, name) {
            Some(at) => 0 <= at < scopes.len(),
            None => true,
        },
    decreases scope,
{
    if 0 <= scope < scopes.len() && !scopes[scope].bindings.dom().contains(name) {
        match scopes[scope].enclosing {
            Some(outer) => {
                if 0 <= outer < scope {
                    lemma_lookup_ok(scopes, outer, name);
                }
            },
            None => {},
        }
    }
}

/// The messages of the failures of the interpreter itself differ.
proof fn lemma_messages()
    ensures
        "The scope of the function is gone."@.len() == 34,
        "The scope around the block is gone."@.len() == 35,
        "No loop takes the break."@.len() == 24,
        "A failed operation has no text."@.len() == 31,
        "A statement was under way."@.len() == 26,
        "An expression was under way."@.len() == 28,
        "The host was asked for a text."@.len() == 30,
        "The host was asked for a number."@.len() == 32,
{
    reveal_strlit("The scope of the function is gone.");
    reveal_strlit("The scope around the block is gone.");
    reveal_strlit("No loop takes the break.");
    reveal_strlit("A failed operation has no text.");
    reveal_strlit("A statement was under way.");
    reveal_strlit("An expression was under way.");
    reveal_strlit("The host was asked for a text.");
    reveal_strlit("The host was asked for a number.");
}

/// The rest of a state whose frames and scopes are in order.
spec fn in_order(core: Core) -> bool {
    &&& 0 <= core.current < core.scopes.len()
    &&& scopes_ok(core.scopes)
    &&& stack_ok(core.stack, core.scopes.len() as int)
}

proof fn lemma_failed_ok(core: Core, error: LoxResultView)
    requires
        in_order(core),
    ensures
        sound(failed(core, error).machine),
{
}

proof fn lemma_execute_keeps(core: Core, stmt: Stmt)
    requires
        in_order(core),
    ensures
        sound(step_execute(core, stmt).machine),
        !lost_a_scope(step_execute(core, stmt)),
{
    let n = core.scopes.len() as int;
    match stmt {
        Stmt::Expression(s) => {
            lemma_stack_push(core.stack, FrameView::Discard, n);
        },
        Stmt::Print(s) => {
            lemma_stack_push(core.stack, FrameView::Print, n);
        },
        Stmt::Var(s) => {
            lemma_stack_push(core.stack, FrameView::Define(s.name), n);
            lemma_bound_ok(core.scopes, core.current, s.name.lexeme@, ObjectView::Nil);
        },
        Stmt::Block(s) => {
            lemma_entered_ok(core.scopes, core.current);
            lemma_stack_ok_grows(core.stack, n, n + 1);
            lemma_stack_push(
                core.stack,
                FrameView::Block { statements: s.statements@, next: 0, saved: core.current },
                n + 1,
            );
        },
        Stmt::If(s) => {
            lemma_stack_push(core.stack, FrameView::If(s), n);
        },
        Stmt::While(s) => {
            lemma_stack_push(core.stack, FrameView::Condition(s), n);
        },
        Stmt::Break(s) => {
            lemma_failed_ok(
                core,
                LoxResultView::RuntimeError {
                    token: s.token@,
                    message: "Cannot break outside of loop"@,
                },
            );
        },
        Stmt::Function(s) => {
            lemma_bound_ok(
                core.scopes,
                core.current,
                s.name.lexeme@,
                ObjectView::Func(CallableView::Function { declaration: s, closure: core.current }),
            );
        },
        Stmt::Return(s) => {
            lemma_stack_push(core.stack, FrameView::Return(s.keyword), n);
        },
    }
}

proof fn lemma_evaluate_keeps(core: Core, expr: Expr)
    requires
        in_order(core),
    ensures
        sound(step_evaluate(core, expr).machine),
        !lost_a_scope(step_evaluate(core, expr)),
{
    let n = core.scopes.len() as int;
    match expr {
        Expr::Unary(e) => {
            lemma_stack_push(core.stack, FrameView::Unary(e), n);
        },
        Expr::Binary(e) => {
            lemma_stack_push(core.stack, FrameView::Left(e), n);
        },
        Expr::Logical(e) => {
            lemma_stack_push(core.stack, FrameView::Logical(e), n);
        },
        Expr::Variable(e) => {
            lemma_lookup_ok(core.scopes, core.current, e.name.lexeme@);
            lemma_failed_ok(core, undefined(e.name));
        },
        Expr::Assign(e) => {
            lemma_stack_push(core.stack, FrameView::Assign(e), n);
        },
        Expr::Call(e) => {
            lemma_stack_push(
                core.stack,
                FrameView::Call { call: e, callee: None, arguments: Seq::empty() },
                n,
            );
        },
        _ => {},
    }
}

proof fn lemma_invoke_keeps(
    core: Core,
    paren: Token,
    callee: ObjectView,
    arguments: Seq<ObjectView>,
)
    requires
        in_order(core),
        value_ok(callee, core.scopes.len() as int),
        forall|i: int|
            0 <= i < arguments.len() ==> value_ok(
                #[trigger] arguments[i],
                core.scopes.len() as int,
            ),
    ensures
        sound(step_invoke(core, paren, callee, arguments).machine),
        !lost_a_scope(step_invoke(core, paren, callee, arguments)),
{
    let n = core.scopes.len() as int;
    match callee {
        ObjectView::Func(CallableView::Function { declaration, closure }) => {
            if arguments.len() == declaration.params@.len() {
                let inside = entered(core, closure);
                lemma_entered_ok(core.scopes, closure);
                assert forall|i: int| 0 <= i < arguments.len() implies value_ok(
                    #[trigger] arguments[i],
                    n + 1,
                ) by {
                    assert(value_ok(arguments[i], n));
                }
                lemma_with_arguments_ok(
                    inside.scopes,
                    inside.current,
                    declaration.params@,
                    arguments,
                    arguments.len(),
                );
                lemma_stack_ok_grows(core.stack, n, n + 1);
                lemma_stack_push(core.stack, FrameView::Invoke, n + 1);
                lemma_stack_push(
                    core.stack.push(FrameView::Invoke),
                    FrameView::Block {
                        statements: declaration.body@,
                        next: 0,
                        saved: core.current,
                    },
                    n + 1,
                );
            }
        },
        _ => {},
    }
}

proof fn lemma_value_keeps(core: Core, frame: FrameView, value: ObjectView)
    requires
        in_order(core),
        frame_ok(frame, core.scopes.len() as int),
        value_ok(value, core.scopes.len() as int),
    ensures
        sound(step_value(core, frame, value).machine),
        !lost_a_scope(step_value(core, frame, value)),
{
    let n = core.scopes.len() as int;
    lemma_messages();
    match frame {
        FrameView::Define(name) => {
            lemma_bound_ok(core.scopes, core.current, name.lexeme@, value);
        },
        FrameView::Condition(s) => {
            lemma_stack_push(core.stack, FrameView::Body(s), n);
        },
        FrameView::Left(e) => {
            lemma_stack_push(core.stack, FrameView::Right(e, value), n);
        },
        FrameView::Assign(e) => {
            lemma_lookup_ok(core.scopes, core.current, e.name.lexeme@);
            match holder(core.scopes, core.current, e.name.lexeme@) {
                Some(at) => {
                    lemma_bound_ok(core.scopes, at, e.name.lexeme@, value);
                },
                None => {},
            }
        },
        FrameView::Call { call, callee, arguments } => {
            let function = match callee {
                Some(function) => function,
                None => value,
            };
            let given = match callee {
                Some(_) => arguments.push(value),
                None => arguments,
            };
            assert forall|i: int| 0 <= i < given.len() implies value_ok(#[trigger] given[i], n) by {
                if i < arguments.len() {
                    assert(value_ok(arguments[i], n));
                }
            }
            if given.len() < call.arguments@.len() {
                lemma_stack_push(
                    core.stack,
                    FrameView::Call { call, callee: Some(function), arguments: given },
                    n,
                );
            } else {
                lemma_invoke_keeps(core, call.paren, function, given);
            }
        },
        _ => {},
    }
}

proof fn lemma_done_keeps(core: Core, frame: FrameView)
    requires
        in_order(core),
        frame_ok(frame, core.scopes.len() as int),
    ensures
        sound(step_done(core, frame).machine),
        !lost_a_scope(step_done(core, frame)),
{
    let n = core.scopes.len() as int;
    lemma_messages();
    match frame {
        FrameView::Block { statements, next, saved } => {
            lemma_stack_push(
                core.stack,
                FrameView::Block { statements, next: next + 1, saved },
                n,
            );
        },
        FrameView::Body(s) => {
            lemma_stack_push(core.stack, FrameView::Condition(s), n);
        },
        _ => {},
    }
}

/// A state that refers to scopes that there are only is followed by such a
/// state, and no step from it fails for a scope that is gone.
pub proof fn law_scopes_stay(machine: MachineView, event: EventView)
    requires
        sound(machine),
    ensures
        sound(step(machine, event).machine),
        !lost_a_scope(step(machine, event)),
{
    let core = machine.core;
    let n = core.scopes.len() as int;
    lemma_messages();
    assert(in_order(core));
    if core.stack.len() > 0 {
        lemma_stack_pop(core.stack, n);
        assert(in_order(popped(core)));
    }
    match machine.mode {
        ModeView::Execute(stmt) => {
            lemma_execute_keeps(core, stmt);
        },
        ModeView::Evaluate(expr) => {
            lemma_evaluate_keeps(core, expr);
        },
        ModeView::Value(value) => {
            if core.stack.len() > 0 {
                lemma_value_keeps(popped(core), core.stack.last(), value);
            }
        },
        ModeView::Done => {
            if core.stack.len() > 0 {
                lemma_done_keeps(popped(core), core.stack.last());
            }
        },
        _ => {},
    }
}

/// A new interpreter, and one that a program has just been given to,
/// refers to scopes that there are only.
pub proof fn law_runs_start_in_order(scopes: Seq<ScopeView>, statements: Seq<Stmt>, expr: Expr)
    requires
        scopes.len() > 0,
        scopes_ok(scopes),
    ensures
        sound(loaded(scopes, statements)),
        sound(evaluating(scopes, expr)),
{
}

} // verus!
