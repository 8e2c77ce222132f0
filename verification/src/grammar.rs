//! The grammar, as functions from a token sequence to a syntax tree.
//!
//! Each function parses one construct that starts at index `pos` of `tokens`.
//! It takes the errors reported before it in `log` and gives back the log
//! with its own reports behind them. The rules, from the loosest binding to
//! the tightest:
//!
//! ```text
//! program     → declaration* EOF
//! declaration → funDecl | varDecl | statement
//! funDecl     → "fun" IDENTIFIER "(" parameters? ")" "{" block
//! varDecl     → "var" IDENTIFIER ( "=" expression )? ";"
//! statement   → ifStmt | printStmt | returnStmt | whileStmt | forStmt
//!             | breakStmt | "{" block | exprStmt
//! ifStmt      → "if" "(" expression ")" statement ( "else" statement )?
//! printStmt   → "print" expression ";"
//! returnStmt  → "return" expression? ";"
//! whileStmt   → "while" "(" expression ")" statement
//! forStmt     → "for" "(" ( varDecl | exprStmt | ";" ) expression? ";"
//!               expression? ")" statement
//! breakStmt   → "break" ";"
//! block       → declaration* "}"
//! exprStmt    → expression ";"
//! expression  → assignment
//! assignment  → ( IDENTIFIER "=" assignment ) | logic_or
//! logic_or    → logic_and ( "or" logic_and )*
//! logic_and   → equality ( "and" equality )*
//! equality    → comparison ( ( "!=" | "==" ) comparison )*
//! comparison  → term ( ( ">" | ">=" | "<" | "<=" ) term )*
//! term        → factor ( ( "-" | "+" ) factor )*
//! factor      → unary ( ( "/" | "*" ) unary )*
//! unary       → ( "!" | "-" ) unary | call
//! call        → primary ( "(" arguments? ")" )*
//! primary     → NUMBER | STRING | "true" | "false" | "nil"
//!             | "(" expression ")" | IDENTIFIER
//! ```
//!
//! The rules call each other in a circle, so each is measured by the tokens
//! that are left and, behind that, by a rank: a rule calls a rule of a lower
//! rank where it stands, and any rule once it has read a token.
//!
//! The rules are opaque: a proof that wants the definition of one reveals it,
//! together with the rules of its circle that its definition names.
use vstd::prelude::*;
use crate::ast::{ExprView, StmtView};
use crate::error::LoxResultView;
use crate::tokens::{LiteralView, TokenType, TokenView};

verus! {

/// What parsing one construct yields.
pub struct Parsed<T> {
    /// How many tokens the parser moved over.
    pub consumed: nat,
    /// Every error reported so far.
    pub log: Seq<LoxResultView>,
    /// The construct, unless the parse failed.
    pub node: Option<T>,
}

/// A construct parsed from `consumed` tokens.
pub open spec fn done<T>(consumed: nat, log: Seq<LoxResultView>, node: T) -> Parsed<T> {
    Parsed { consumed, log, node: Some(node) }
}

/// The error that the parser reports at a token.
pub open spec fn error_at(token: TokenView, message: Seq<char>) -> LoxResultView {
    LoxResultView::ParseError { token, message }
}

/// A parse that fails at the token at `pos`, which stays unread.
pub open spec fn fail<T>(
    tokens: Seq<TokenView>,
    pos: int,
    log: Seq<LoxResultView>,
    message: Seq<char>,
) -> Parsed<T> {
    Parsed { consumed: 0, log: log.push(error_at(tokens[pos], message)), node: None }
}

/// The failure of a part is the failure of the whole.
pub open spec fn stop<A, B>(part: Parsed<A>) -> Parsed<B> {
    Parsed { consumed: part.consumed, log: part.log, node: None }
}

/// The same parse with another construct made of it.
pub open spec fn with<A, B>(part: Parsed<A>, node: B) -> Parsed<B> {
    Parsed { consumed: part.consumed, log: part.log, node: Some(node) }
}

/// `rest`, parsed behind `first`.
pub open spec fn after<A, B>(first: Parsed<A>, rest: Parsed<B>) -> Parsed<B> {
    Parsed { consumed: first.consumed + rest.consumed, log: rest.log, node: rest.node }
}

/// `rest`, parsed behind `n` tokens.
pub open spec fn skip<T>(n: nat, rest: Parsed<T>) -> Parsed<T> {
    Parsed { consumed: n + rest.consumed, log: rest.log, node: rest.node }
}

/// A parse of something that may also be left out.
pub open spec fn some<T>(part: Parsed<T>) -> Parsed<Option<T>> {
    Parsed {
        consumed: part.consumed,
        log: part.log,
        node: match part.node {
            Some(node) => Some(Some(node)),
            None => None,
        },
    }
}

/// Whether the parser at `pos` has no token left but the end of input.
pub open spec fn at_end(tokens: Seq<TokenView>, pos: int) -> bool {
    !(0 <= pos < tokens.len()) || tokens[pos].kind == TokenType::Eof
}

/// Whether the token at `pos` is of kind `kind`.
pub open spec fn check(tokens: Seq<TokenView>, pos: int, kind: TokenType) -> bool {
    !at_end(tokens, pos) && tokens[pos].kind == kind
}

/// `items`, and behind them what `rest` yields, `n` tokens further on.
pub open spec fn prepend<T>(n: nat, items: Seq<T>, rest: Parsed<Seq<T>>) -> Parsed<Seq<T>> {
    Parsed {
        consumed: n + rest.consumed,
        log: rest.log,
        node: match rest.node {
            Some(more) => Some(items + more),
            None => None,
        },
    }
}

/// The tokens from `pos` on, counted.
pub open spec fn remaining(tokens: Seq<TokenView>, pos: int) -> nat {
    if pos < tokens.len() {
        (tokens.len() - pos) as nat
    } else {
        0
    }
}

/// A token of kind `kind`, or the error `message` at the token found instead.
pub open spec fn expect(
    tokens: Seq<TokenView>,
    pos: int,
    kind: TokenType,
    message: Seq<char>,
    log: Seq<LoxResultView>,
) -> Parsed<TokenView> {
    if check(tokens, pos, kind) {
        done(1, log, tokens[pos])
    } else {
        fail(tokens, pos, log, message)
    }
}

/// The binary operators of each tier, the loosest first: `or`; `and`;
/// equality; comparison; terms; factors.
pub open spec fn is_operator(kind: TokenType, level: nat) -> bool {
    if level == 0 {
        kind == TokenType::Or
    } else if level == 1 {
        kind == TokenType::And
    } else if level == 2 {
        kind == TokenType::BangEqual || kind == TokenType::Equal
    } else if level == 3 {
        kind == TokenType::Greater || kind == TokenType::GreaterEqual || kind == TokenType::Less
            || kind == TokenType::LessEqual
    } else if level == 4 {
        kind == TokenType::Minus || kind == TokenType::Plus
    } else if level == 5 {
        kind == TokenType::Slash || kind == TokenType::Star
    } else {
        false
    }
}

/// The node of a binary operator of tier `level`: `or` and `and` short-circuit.
pub open spec fn combine(level: nat, left: ExprView, operator: TokenView, right: ExprView)
    -> ExprView {
    if level <= 1 {
        ExprView::Logical { left: Box::new(left), operator, right: Box::new(right) }
    } else {
        ExprView::Binary { left: Box::new(left), operator, right: Box::new(right) }
    }
}

/// The order in which the rules of one tier call each other without reading
/// a token.
pub open spec fn tier_rank(level: nat) -> nat {
    if level >= 6 {
        4
    } else {
        (5 + 2 * (5 - level)) as nat
    }
}

/// A literal, a name, or an expression in parentheses. A number or string
/// token that does not carry its literal reads as `nil`.
#[verifier::opaque]
pub open spec fn primary(tokens: Seq<TokenView>, pos: int, log: Seq<LoxResultView>) -> Parsed<
    ExprView,
>
    decreases remaining(tokens, pos), 0nat,
{
    if check(tokens, pos, TokenType::False) {
        done(1, log, ExprView::Literal { value: LiteralView::Bool(false) })
    } else if check(tokens, pos, TokenType::True) {
        done(1, log, ExprView::Literal { value: LiteralView::Bool(true) })
    } else if check(tokens, pos, TokenType::Nil) {
        done(1, log, ExprView::Literal { value: LiteralView::Nil })
    } else if check(tokens, pos, TokenType::Number) || check(tokens, pos, TokenType::String) {
        done(
            1,
            log,
            ExprView::Literal {
                value: match tokens[pos].literal {
                    Some(value) => value,
                    None => LiteralView::Nil,
                },
            },
        )
    } else if check(tokens, pos, TokenType::LeftParen) {
        let inner = skip(1, expression(tokens, pos + 1, log));
        if inner.node is None {
            stop(inner)
        } else {
            let close = after(
                inner,
                expect(
                    tokens,
                    pos + inner.consumed,
                    TokenType::RightParen,
                    "Expect ')' after expression"@,
                    inner.log,
                ),
            );
            if close.node is None {
                stop(close)
            } else {
                with(close, ExprView::Grouping { expression: Box::new(inner.node->0) })
            }
        }
    } else if check(tokens, pos, TokenType::Identifier) {
        done(1, log, ExprView::Variable { name: tokens[pos] })
    } else {
        fail(tokens, pos, log, "Expect expression"@)
    }
}

/// The arguments of a call, one expression after another with commas between.
#[verifier::opaque]
pub open spec fn argument_list(tokens: Seq<TokenView>, pos: int, log: Seq<LoxResultView>) -> Parsed<
    Seq<ExprView>,
>
    decreases remaining(tokens, pos), 18nat,
{
    let first = expression(tokens, pos, log);
    if first.node is None {
        stop(first)
    } else if check(tokens, pos + first.consumed, TokenType::Comma) {
        let rest = after(
            first,
            skip(1, argument_list(tokens, pos + first.consumed + 1, first.log)),
        );
        if rest.node is None {
            stop(rest)
        } else {
            with(rest, seq![first.node->0] + rest.node->0)
        }
    } else {
        with(first, seq![first.node->0])
    }
}

/// The arguments of a call up to its closing parenthesis, which stays unread.
#[verifier::opaque]
pub open spec fn arguments(tokens: Seq<TokenView>, pos: int, log: Seq<LoxResultView>) -> Parsed<
    Seq<ExprView>,
>
    decreases remaining(tokens, pos), 19nat,
{
    if check(tokens, pos, TokenType::RightParen) {
        done(0, log, Seq::empty())
    } else {
        argument_list(tokens, pos, log)
    }
}

/// The calls made of `callee`: each `(` behind it calls what stands before.
#[verifier::opaque]
pub open spec fn calls(
    tokens: Seq<TokenView>,
    pos: int,
    log: Seq<LoxResultView>,
    callee: ExprView,
) -> Parsed<ExprView>
    decreases remaining(tokens, pos), 1nat,
{
    if check(tokens, pos, TokenType::LeftParen) {
        let list = skip(1, arguments(tokens, pos + 1, log));
        if list.node is None {
            stop(list)
        } else {
            let close = after(
                list,
                expect(
                    tokens,
                    pos + list.consumed,
                    TokenType::RightParen,
                    "Expect ')' after arguments."@,
                    list.log,
                ),
            );
            if close.node is None {
                stop(close)
            } else {
                after(
                    close,
                    calls(
                        tokens,
                        pos + close.consumed,
                        close.log,
                        ExprView::Call {
                            callee: Box::new(callee),
                            paren: close.node->0,
                            arguments: list.node->0,
                        },
                    ),
                )
            }
        }
    } else {
        done(0, log, callee)
    }
}

/// A primary, and the calls made of it.
#[verifier::opaque]
pub open spec fn call(tokens: Seq<TokenView>, pos: int, log: Seq<LoxResultView>) -> Parsed<
    ExprView,
>
    decreases remaining(tokens, pos), 2nat,
{
    let callee = primary(tokens, pos, log);
    if callee.node is None {
        callee
    } else {
        after(callee, calls(tokens, pos + callee.consumed, callee.log, callee.node->0))
    }
}

/// `!` or `-` before a unary expression, or a call.
#[verifier::opaque]
pub open spec fn unary(tokens: Seq<TokenView>, pos: int, log: Seq<LoxResultView>) -> Parsed<
    ExprView,
>
    decreases remaining(tokens, pos), 3nat,
{
    if check(tokens, pos, TokenType::Bang) || check(tokens, pos, TokenType::Minus) {
        let right = skip(1, unary(tokens, pos + 1, log));
        if right.node is None {
            right
        } else {
            with(right, ExprView::Unary { operator: tokens[pos], right: Box::new(right.node->0) })
        }
    } else {
        call(tokens, pos, log)
    }
}

/// The operators of tier `level` behind `left`, each with its right operand.
/// The operators of one tier associate to the left.
#[verifier::opaque]
pub open spec fn operations(
    tokens: Seq<TokenView>,
    pos: int,
    log: Seq<LoxResultView>,
    level: nat,
    left: ExprView,
) -> Parsed<ExprView>
    decreases remaining(tokens, pos), (tier_rank(level) - 1) as nat,
{
    if level < 6 && !at_end(tokens, pos) && is_operator(tokens[pos].kind, level) {
        let right = skip(1, binary(tokens, pos + 1, log, level + 1));
        if right.node is None {
            right
        } else {
            after(
                right,
                operations(
                    tokens,
                    pos + right.consumed,
                    right.log,
                    level,
                    combine(level, left, tokens[pos], right.node->0),
                ),
            )
        }
    } else {
        done(0, log, left)
    }
}

/// An expression whose loosest operators are of tier `level`.
#[verifier::opaque]
pub open spec fn binary(tokens: Seq<TokenView>, pos: int, log: Seq<LoxResultView>, level: nat)
    -> Parsed<ExprView>
    decreases remaining(tokens, pos), tier_rank(level),
{
    if level >= 6 {
        unary(tokens, pos, log)
    } else {
        let left = binary(tokens, pos, log, level + 1);
        if left.node is None {
            left
        } else {
            after(left, operations(tokens, pos + left.consumed, left.log, level, left.node->0))
        }
    }
}

/// An assignment, or an expression of the tiers below. A target that is no
/// variable is reported, and the expression parsed as the target stands.
#[verifier::opaque]
pub open spec fn assignment(tokens: Seq<TokenView>, pos: int, log: Seq<LoxResultView>) -> Parsed<
    ExprView,
>
    decreases remaining(tokens, pos), 16nat,
{
    let target = binary(tokens, pos, log, 0);
    if target.node is None {
        target
    } else if check(tokens, pos + target.consumed, TokenType::Assign) {
        let equals = tokens[pos + target.consumed];
        let value = after(
            target,
            skip(1, assignment(tokens, pos + target.consumed + 1, target.log)),
        );
        if value.node is None {
            value
        } else {
            match target.node->0 {
                ExprView::Variable { name } => with(
                    value,
                    ExprView::Assign { name, value: Box::new(value.node->0) },
                ),
                _ => Parsed {
                    consumed: value.consumed,
                    log: value.log.push(error_at(equals, "Invalid assignment target."@)),
                    node: target.node,
                },
            }
        }
    } else {
        target
    }
}

/// An expression.
#[verifier::opaque]
pub open spec fn expression(tokens: Seq<TokenView>, pos: int, log: Seq<LoxResultView>) -> Parsed<
    ExprView,
>
    decreases remaining(tokens, pos), 17nat,
{
    assignment(tokens, pos, log)
}

/// Whether a statement may start with a token of this kind: the parser
/// resumes there after an error.
pub open spec fn starts_statement(kind: TokenType) -> bool {
    kind == TokenType::Class || kind == TokenType::Var || kind == TokenType::For || kind
        == TokenType::If || kind == TokenType::While || kind == TokenType::Print || kind
        == TokenType::Return
}

/// Where discarding tokens ends: behind a `;`, before a token that starts a
/// statement, or at the end of input.
#[verifier::opaque]
pub open spec fn resume_at(tokens: Seq<TokenView>, pos: int) -> int
    decreases remaining(tokens, pos),
{
    if at_end(tokens, pos) {
        pos
    } else if 1 <= pos && tokens[pos - 1].kind == TokenType::Semicolon {
        pos
    } else if starts_statement(tokens[pos].kind) {
        pos
    } else {
        resume_at(tokens, pos + 1)
    }
}

/// Where the parser stands after it has recovered from an error met at `pos`.
pub open spec fn synchronized(tokens: Seq<TokenView>, pos: int) -> int {
    if at_end(tokens, pos) {
        pos
    } else {
        resume_at(tokens, pos + 1)
    }
}

/// A `for` loop written as the `while` loop it stands for: the initializer
/// runs first, in a block of its own around the loop; the increment runs
/// after the body, in a block of its own around the body; a condition left
/// out is `true`.
pub open spec fn desugar_for(
    initializer: Option<StmtView>,
    condition: Option<ExprView>,
    increment: Option<ExprView>,
    body: StmtView,
) -> StmtView {
    let inner = match increment {
        Some(increment) => StmtView::Block {
            statements: seq![body, StmtView::Expression { expression: increment }],
        },
        None => body,
    };
    let looped = StmtView::While {
        condition: match condition {
            Some(condition) => condition,
            None => ExprView::Literal { value: LiteralView::Bool(true) },
        },
        body: Box::new(inner),
    };
    match initializer {
        Some(initializer) => StmtView::Block { statements: seq![initializer, looped] },
        None => looped,
    }
}

/// An expression and the `;` behind it.
#[verifier::opaque]
pub open spec fn terminated(tokens: Seq<TokenView>, pos: int, log: Seq<LoxResultView>) -> Parsed<
    ExprView,
>
    decreases remaining(tokens, pos), 18nat,
{
    let value = expression(tokens, pos, log);
    if value.node is None {
        value
    } else {
        let semicolon = after(
            value,
            expect(
                tokens,
                pos + value.consumed,
                TokenType::Semicolon,
                "Expect ';' after value."@,
                value.log,
            ),
        );
        if semicolon.node is None {
            stop(semicolon)
        } else {
            with(semicolon, value.node->0)
        }
    }
}

/// An expression as a statement, with its `;`.
#[verifier::opaque]
pub open spec fn expression_statement(tokens: Seq<TokenView>, pos: int, log: Seq<LoxResultView>)
    -> Parsed<StmtView>
    decreases remaining(tokens, pos), 19nat,
{
    let value = terminated(tokens, pos, log);
    if value.node is None {
        stop(value)
    } else {
        with(value, StmtView::Expression { expression: value.node->0 })
    }
}

/// The rest of a `print` statement, behind its keyword.
#[verifier::opaque]
pub open spec fn print_statement(tokens: Seq<TokenView>, pos: int, log: Seq<LoxResultView>)
    -> Parsed<StmtView>
    decreases remaining(tokens, pos), 19nat,
{
    let value = terminated(tokens, pos, log);
    if value.node is None {
        stop(value)
    } else {
        with(value, StmtView::Print { expression: value.node->0 })
    }
}

/// The rest of a `return` statement, behind its keyword.
#[verifier::opaque]
pub open spec fn return_statement(
    tokens: Seq<TokenView>,
    pos: int,
    log: Seq<LoxResultView>,
    keyword: TokenView,
) -> Parsed<StmtView>
    decreases remaining(tokens, pos), 19nat,
{
    let value = optional_expression(tokens, pos, log, TokenType::Semicolon);
    if value.node is None {
        stop(value)
    } else {
        let semicolon = after(
            value,
            expect(
                tokens,
                pos + value.consumed,
                TokenType::Semicolon,
                "Expect ';' after return value."@,
                value.log,
            ),
        );
        if semicolon.node is None {
            stop(semicolon)
        } else {
            with(semicolon, StmtView::Return { keyword, value: value.node->0 })
        }
    }
}

/// The rest of a `break` statement, behind its keyword.
pub open spec fn break_statement(
    tokens: Seq<TokenView>,
    pos: int,
    log: Seq<LoxResultView>,
    keyword: TokenView,
) -> Parsed<StmtView> {
    let semicolon = expect(tokens, pos, TokenType::Semicolon, "Expect ';' after 'break'."@, log);
    if semicolon.node is None {
        stop(semicolon)
    } else {
        with(semicolon, StmtView::Break { token: keyword })
    }
}

/// The rest of a variable declaration, behind `var`.
#[verifier::opaque]
pub open spec fn var_declaration(tokens: Seq<TokenView>, pos: int, log: Seq<LoxResultView>)
    -> Parsed<StmtView>
    decreases remaining(tokens, pos), 19nat,
{
    let name = expect(tokens, pos, TokenType::Identifier, "Expected variable name"@, log);
    if name.node is None {
        stop(name)
    } else {
        let initializer = after(
            name,
            if check(tokens, pos + 1, TokenType::Assign) {
                some(skip(1, expression(tokens, pos + 2, name.log)))
            } else {
                done(0, name.log, None)
            },
        );
        if initializer.node is None {
            stop(initializer)
        } else {
            let semicolon = after(
                initializer,
                expect(
                    tokens,
                    pos + initializer.consumed,
                    TokenType::Semicolon,
                    "Expected ';' after variable declaration."@,
                    initializer.log,
                ),
            );
            if semicolon.node is None {
                stop(semicolon)
            } else {
                with(
                    semicolon,
                    StmtView::Var { name: name.node->0, initializer: initializer.node->0 },
                )
            }
        }
    }
}

/// The names of a function's parameters, with commas between.
#[verifier::opaque]
pub open spec fn parameter_list(tokens: Seq<TokenView>, pos: int, log: Seq<LoxResultView>)
    -> Parsed<Seq<TokenView>>
    decreases remaining(tokens, pos),
{
    let name = expect(tokens, pos, TokenType::Identifier, "Expect parameter name."@, log);
    if name.node is None {
        stop(name)
    } else if check(tokens, pos + 1, TokenType::Comma) {
        let rest = skip(2, parameter_list(tokens, pos + 2, name.log));
        if rest.node is None {
            stop(rest)
        } else {
            with(rest, seq![name.node->0] + rest.node->0)
        }
    } else {
        with(name, seq![name.node->0])
    }
}

/// The parameters of a function up to the closing parenthesis, which stays
/// unread.
pub open spec fn parameters(tokens: Seq<TokenView>, pos: int, log: Seq<LoxResultView>) -> Parsed<
    Seq<TokenView>,
> {
    if check(tokens, pos, TokenType::RightParen) {
        done(0, log, Seq::empty())
    } else {
        parameter_list(tokens, pos, log)
    }
}

/// The rest of an `if` statement, behind its keyword.
#[verifier::opaque]
pub open spec fn if_statement(tokens: Seq<TokenView>, pos: int, log: Seq<LoxResultView>) -> Parsed<
    StmtView,
>
    decreases remaining(tokens, pos), 19nat,
{
    let open = expect(tokens, pos, TokenType::LeftParen, "Expect '(' after 'if'."@, log);
    if open.node is None {
        stop(open)
    } else {
        let condition = after(open, expression(tokens, pos + 1, open.log));
        if condition.node is None {
            stop(condition)
        } else {
            let close = after(
                condition,
                expect(
                    tokens,
                    pos + condition.consumed,
                    TokenType::RightParen,
                    "Expect ')' after 'if'."@,
                    condition.log,
                ),
            );
            if close.node is None {
                stop(close)
            } else {
                let then_branch = after(close, statement(tokens, pos + close.consumed, close.log));
                if then_branch.node is None {
                    then_branch
                } else if check(tokens, pos + then_branch.consumed, TokenType::Else) {
                    let else_branch = after(
                        then_branch,
                        skip(
                            1,
                            statement(tokens, pos + then_branch.consumed + 1, then_branch.log),
                        ),
                    );
                    if else_branch.node is None {
                        else_branch
                    } else {
                        with(
                            else_branch,
                            StmtView::If {
                                condition: condition.node->0,
                                then_branch: Box::new(then_branch.node->0),
                                else_branch: Some(Box::new(else_branch.node->0)),
                            },
                        )
                    }
                } else {
                    with(
                        then_branch,
                        StmtView::If {
                            condition: condition.node->0,
                            then_branch: Box::new(then_branch.node->0),
                            else_branch: None,
                        },
                    )
                }
            }
        }
    }
}

/// The rest of a `while` statement, behind its keyword.
#[verifier::opaque]
pub open spec fn while_statement(tokens: Seq<TokenView>, pos: int, log: Seq<LoxResultView>)
    -> Parsed<StmtView>
    decreases remaining(tokens, pos), 19nat,
{
    let open = expect(tokens, pos, TokenType::LeftParen, "Expect '(' after while."@, log);
    if open.node is None {
        stop(open)
    } else {
        let condition = after(open, expression(tokens, pos + 1, open.log));
        if condition.node is None {
            stop(condition)
        } else {
            let close = after(
                condition,
                expect(
                    tokens,
                    pos + condition.consumed,
                    TokenType::RightParen,
                    "Expect ')' after while."@,
                    condition.log,
                ),
            );
            if close.node is None {
                stop(close)
            } else {
                let body = after(close, statement(tokens, pos + close.consumed, close.log));
                if body.node is None {
                    body
                } else {
                    with(
                        body,
                        StmtView::While {
                            condition: condition.node->0,
                            body: Box::new(body.node->0),
                        },
                    )
                }
            }
        }
    }
}

/// An expression, unless a token of kind `closer` stands in its place.
#[verifier::opaque]
pub open spec fn optional_expression(
    tokens: Seq<TokenView>,
    pos: int,
    log: Seq<LoxResultView>,
    closer: TokenType,
) -> Parsed<Option<ExprView>> {
    if check(tokens, pos, closer) {
        done(0, log, None)
    } else {
        some(expression(tokens, pos, log))
    }
}

/// The first clause of a `for` statement with the `;` behind it: nothing, a
/// variable declaration or an expression.
#[verifier::opaque]
pub open spec fn for_initializer(tokens: Seq<TokenView>, pos: int, log: Seq<LoxResultView>)
    -> Parsed<Option<StmtView>> {
    if check(tokens, pos, TokenType::Semicolon) {
        done(1, log, None)
    } else if check(tokens, pos, TokenType::Var) {
        some(skip(1, var_declaration(tokens, pos + 1, log)))
    } else {
        some(expression_statement(tokens, pos, log))
    }
}

/// The rest of a `for` statement, behind its keyword.
#[verifier::opaque]
pub open spec fn for_statement(tokens: Seq<TokenView>, pos: int, log: Seq<LoxResultView>) -> Parsed<
    StmtView,
>
    decreases remaining(tokens, pos), 19nat,
{
    let open = expect(tokens, pos, TokenType::LeftParen, "Expect '(' after 'for'."@, log);
    if open.node is None {
        stop(open)
    } else {
        let initializer = after(open, for_initializer(tokens, pos + 1, open.log));
        if initializer.node is None {
            stop(initializer)
        } else {
            let condition = after(
                initializer,
                optional_expression(
                    tokens,
                    pos + initializer.consumed,
                    initializer.log,
                    TokenType::Semicolon,
                ),
            );
            if condition.node is None {
                stop(condition)
            } else {
                let semicolon = after(
                    condition,
                    expect(
                        tokens,
                        pos + condition.consumed,
                        TokenType::Semicolon,
                        "Expect ';' after loop condition"@,
                        condition.log,
                    ),
                );
                if semicolon.node is None {
                    stop(semicolon)
                } else {
                    let increment = after(
                        semicolon,
                        optional_expression(
                            tokens,
                            pos + semicolon.consumed,
                            semicolon.log,
                            TokenType::RightParen,
                        ),
                    );
                    if increment.node is None {
                        stop(increment)
                    } else {
                        let close = after(
                            increment,
                            expect(
                                tokens,
                                pos + increment.consumed,
                                TokenType::RightParen,
                                "Expect ')' after 'for' clauses"@,
                                increment.log,
                            ),
                        );
                        if close.node is None {
                            stop(close)
                        } else {
                            let body = after(
                                close,
                                statement(tokens, pos + close.consumed, close.log),
                            );
                            if body.node is None {
                                body
                            } else {
                                with(
                                    body,
                                    desugar_for(
                                        initializer.node->0,
                                        condition.node->0,
                                        increment.node->0,
                                        body.node->0,
                                    ),
                                )
                            }
                        }
                    }
                }
            }
        }
    }
}

/// The declarations of a block up to its closing brace, which is read too.
#[verifier::opaque]
pub open spec fn block(tokens: Seq<TokenView>, pos: int, log: Seq<LoxResultView>) -> Parsed<
    Seq<StmtView>,
>
    decreases remaining(tokens, pos), 22nat,
{
    if check(tokens, pos, TokenType::RightBrace) || at_end(tokens, pos) {
        let close = expect(tokens, pos, TokenType::RightBrace, "Expect '}' after block."@, log);
        if close.node is None {
            stop(close)
        } else {
            with(close, Seq::empty())
        }
    } else {
        let first = declaration(tokens, pos, log);
        if first.node is None || first.consumed == 0 {
            stop(first)
        } else {
            let rest = after(first, block(tokens, pos + first.consumed, first.log));
            if rest.node is None {
                rest
            } else {
                with(rest, seq![first.node->0] + rest.node->0)
            }
        }
    }
}

/// The rest of a function declaration, behind `fun`.
#[verifier::opaque]
pub open spec fn function(tokens: Seq<TokenView>, pos: int, log: Seq<LoxResultView>) -> Parsed<
    StmtView,
>
    decreases remaining(tokens, pos), 19nat,
{
    let name = expect(tokens, pos, TokenType::Identifier, "Expect function name."@, log);
    if name.node is None {
        stop(name)
    } else {
        let open = after(
            name,
            expect(
                tokens,
                pos + 1,
                TokenType::LeftParen,
                "Expect '(' after function name."@,
                name.log,
            ),
        );
        if open.node is None {
            stop(open)
        } else {
            let params = after(open, parameters(tokens, pos + 2, open.log));
            if params.node is None {
                stop(params)
            } else {
                let close = after(
                    params,
                    expect(
                        tokens,
                        pos + params.consumed,
                        TokenType::RightParen,
                        "Expect ')' after parameters."@,
                        params.log,
                    ),
                );
                if close.node is None {
                    stop(close)
                } else {
                    let brace = after(
                        close,
                        expect(
                            tokens,
                            pos + close.consumed,
                            TokenType::LeftBrace,
                            "Expect '{' before function body."@,
                            close.log,
                        ),
                    );
                    if brace.node is None {
                        stop(brace)
                    } else {
                        let body = after(brace, block(tokens, pos + brace.consumed, brace.log));
                        if body.node is None {
                            stop(body)
                        } else {
                            with(
                                body,
                                StmtView::Function {
                                    name: name.node->0,
                                    params: params.node->0,
                                    body: body.node->0,
                                },
                            )
                        }
                    }
                }
            }
        }
    }
}

/// A statement: the first token tells which.
#[verifier::opaque]
pub open spec fn statement(tokens: Seq<TokenView>, pos: int, log: Seq<LoxResultView>) -> Parsed<
    StmtView,
>
    decreases remaining(tokens, pos), 20nat,
{
    if check(tokens, pos, TokenType::If) {
        skip(1, if_statement(tokens, pos + 1, log))
    } else if check(tokens, pos, TokenType::Print) {
        skip(1, print_statement(tokens, pos + 1, log))
    } else if check(tokens, pos, TokenType::Return) {
        skip(1, return_statement(tokens, pos + 1, log, tokens[pos]))
    } else if check(tokens, pos, TokenType::While) {
        skip(1, while_statement(tokens, pos + 1, log))
    } else if check(tokens, pos, TokenType::For) {
        skip(1, for_statement(tokens, pos + 1, log))
    } else if check(tokens, pos, TokenType::Break) {
        skip(1, break_statement(tokens, pos + 1, log, tokens[pos]))
    } else if check(tokens, pos, TokenType::LeftBrace) {
        let body = skip(1, block(tokens, pos + 1, log));
        if body.node is None {
            stop(body)
        } else {
            with(body, StmtView::Block { statements: body.node->0 })
        }
    } else {
        expression_statement(tokens, pos, log)
    }
}

/// A declaration. After one that fails, the parser has discarded tokens up
/// to the place where the next statement may start.
#[verifier::opaque]
pub open spec fn declaration(tokens: Seq<TokenView>, pos: int, log: Seq<LoxResultView>) -> Parsed<
    StmtView,
>
    decreases remaining(tokens, pos), 21nat,
{
    let parsed = if check(tokens, pos, TokenType::Var) {
        skip(1, var_declaration(tokens, pos + 1, log))
    } else if check(tokens, pos, TokenType::Fun) {
        skip(1, function(tokens, pos + 1, log))
    } else {
        statement(tokens, pos, log)
    };
    if parsed.node is None {
        Parsed {
            consumed: (synchronized(tokens, pos + parsed.consumed) - pos) as nat,
            log: parsed.log,
            node: None,
        }
    } else {
        parsed
    }
}

/// The declarations of a program, up to the end of input. The first
/// declaration that fails ends the parse.
#[verifier::opaque]
pub open spec fn program(tokens: Seq<TokenView>, pos: int, log: Seq<LoxResultView>) -> Parsed<
    Seq<StmtView>,
>
    decreases remaining(tokens, pos), 22nat,
{
    if at_end(tokens, pos) {
        done(0, log, Seq::empty())
    } else {
        let first = declaration(tokens, pos, log);
        if first.node is None || first.consumed == 0 {
            stop(first)
        } else {
            let rest = after(first, program(tokens, pos + first.consumed, first.log));
            if rest.node is None {
                rest
            } else {
                with(rest, seq![first.node->0] + rest.node->0)
            }
        }
    }
}

} // verus!
