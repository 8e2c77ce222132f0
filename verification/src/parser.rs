//! The parser: tokens to a syntax tree, by recursive descent.
//!
//! What each method yields is the function of the same name in
//! [`crate::grammar`], applied to the tokens, the parser's position and the
//! errors reported so far.
use vstd::prelude::*;
use crate::ast::{
    expr_views, lemma_block_view, lemma_call_view, lemma_function_view, stmt_views, AssignExpr, BinaryExpr, BlockStmt, BreakStmt,
    CallExpr, Expr, ExprView, ExpressionStmt, FunctionStmt, GroupingExpr, IfStmt, LiteralExpr,
    LogicalExpr, PrintStmt, ReturnStmt, Stmt, StmtView, UnaryExpr, VarStmt, VariableExpr,
    WhileStmt,
};
use crate::error::{error_views, LoxResult, LoxResultView};
use crate::grammar;
use crate::grammar::{error_at, Parsed};
use crate::tokens::{token_views, well_ended, Literal, Token, TokenType, TokenView};

verus! {

/// A parser over a token sequence that ends with the end-of-input token.
pub struct Parser<'a> {
    /// Our array of tokens. It's a like a string and the tokens are our
    /// characters.
    tokens: &'a Vec<Token>,
    /// Points to the next token waiting to be parsed.
    current: usize,
    /// Is true if an error has occurred
    had_error: bool,
    /// Every error reported so far.
    errors: Vec<LoxResult>,
}

/// The state of a [`Parser`].
pub struct ParserView {
    pub tokens: Seq<TokenView>,
    /// The index of the next token to parse.
    pub position: int,
    /// Every error reported so far.
    pub errors: Seq<LoxResultView>,
}

impl<'a> View for Parser<'a> {
    type V = ParserView;

    closed spec fn view(&self) -> ParserView {
        ParserView {
            tokens: token_views(self.tokens@),
            position: self.current as int,
            errors: error_views(self.errors@),
        }
    }
}

/// Whether `result` is what `parsed` describes, for an expression.
pub open spec fn is_expr(result: Result<Expr, LoxResult>, parsed: Parsed<ExprView>) -> bool {
    match result {
        Ok(e) => parsed.node == Some(e@) && parsed.consumed > 0,
        Err(x) => parsed.node is None && parsed.log.len() > 0 && x@ == parsed.log.last(),
    }
}

/// Whether `result` is what `parsed` describes, for a statement.
pub open spec fn is_stmt(result: Result<Stmt, LoxResult>, parsed: Parsed<StmtView>) -> bool {
    match result {
        Ok(s) => parsed.node == Some(s@) && parsed.consumed > 0,
        Err(x) => parsed.node is None && parsed.log.len() > 0 && x@ == parsed.log.last(),
    }
}

/// Whether `result` is what `parsed` describes, for a list of statements.
pub open spec fn is_stmts(result: Result<Vec<Stmt>, LoxResult>, parsed: Parsed<Seq<StmtView>>)
    -> bool {
    match result {
        Ok(list) => parsed.node == Some(stmt_views(list@)),
        Err(x) => parsed.node is None && parsed.log.len() > 0 && x@ == parsed.log.last(),
    }
}

fn is_operator_kind(kind: TokenType, level: u8) -> (found: bool)
    ensures
        found == grammar::is_operator(kind, level as nat),
{
    if level == 0 {
        kind == TokenType::Or
    } else if level == 1 {
        kind == TokenType::And
    } else if level == 2 {
        kind == TokenType::BangEqual || kind == TokenType::Equal
    } else if level == 3 {
        kind == TokenType::Greater || kind == TokenType::GreaterEqual || kind == TokenType::Less
            || kind == TokenType::LessEqual
    } else if level == 4 {
        kind == TokenType::Minus || kind == TokenType::Plus
    } else if level == 5 {
        kind == TokenType::Slash || kind == TokenType::Star
    } else {
        false
    }
}

fn starts_statement_kind(kind: TokenType) -> (found: bool)
    ensures
        found == grammar::starts_statement(kind),
{
    kind == TokenType::Class || kind == TokenType::Var || kind == TokenType::For || kind
        == TokenType::If || kind == TokenType::While || kind == TokenType::Print || kind
        == TokenType::Return
}

/// A `for` loop as the `while` loop it stands for.
fn desugar_for(
    initializer: Option<Stmt>,
    condition: Option<Expr>,
    increment: Option<Expr>,
    body: Stmt,
) -> (looped: Stmt)
    ensures
        looped@ == grammar::desugar_for(
            crate::ast::optional_stmt_view(initializer),
            crate::ast::optional_expr_view(condition),
            crate::ast::optional_expr_view(increment),
            body@,
        ),
{
    let mut body = body;
    if let Some(increment) = increment {
        let step = Stmt::Expression(ExpressionStmt { expression: increment });
        let ghost inner = seq![body@, step@];
        let mut statements: Vec<Stmt> = Vec::new();
        statements.push(body);
        statements.push(step);
        let node = BlockStmt { statements };
        proof {
            assert(stmt_views(node.statements@) =~= inner);
            lemma_block_view(node);
        }
        body = Stmt::Block(node);
    }
    body = Stmt::While(
        WhileStmt {
            condition: if let Some(cond) = condition {
                cond
            } else {
                Expr::Literal(LiteralExpr { value: Literal::Bool(true) })
            },
            body: Box::new(body),
        },
    );

    if let Some(init) = initializer {
        let ghost outer = seq![init@, body@];
        let mut statements: Vec<Stmt> = Vec::new();
        statements.push(init);
        statements.push(body);
        let node = BlockStmt { statements };
        proof {
            assert(stmt_views(node.statements@) =~= outer);
            lemma_block_view(node);
        }
        body = Stmt::Block(node);
    }
    body
}

/// The parser implements functions that match the grammar rules. The
/// parser generates an AST.
impl<'a> Parser<'a> {
    /// The position lies on a token, and the tokens end with the end of input.
    pub closed spec fn wf(&self) -> bool {
        &&& well_ended(self.tokens@)
        &&& self.current < self.tokens.len()
        &&& self.had_error == (self.errors.len() > 0)
    }

    spec fn input(&self) -> Seq<TokenView> {
        token_views(self.tokens@)
    }

    spec fn log(&self) -> Seq<LoxResultView> {
        error_views(self.errors@)
    }

    /// The parser has moved from `before` as `parsed` says.
    spec fn moved<T>(&self, before: &Self, parsed: Parsed<T>) -> bool {
        &&& self.wf()
        &&& self.tokens == before.tokens
        &&& self.current == before.current + parsed.consumed
        &&& self.log() == parsed.log
    }

    /// Create a new parser
    pub fn new(tokens: &'a Vec<Token>) -> (parser: Self)
        requires
            well_ended(tokens@),
        ensures
            parser.wf(),
            parser@.tokens == token_views(tokens@),
            parser@.position == 0,
            parser@.errors.len() == 0,
    {
        Self { tokens, current: 0, had_error: false, errors: Vec::new() }
    }

    /// Whether no error has been reported.
    pub fn success(&self) -> (ok: bool)
        requires
            self.wf(),
        ensures
            ok == (self@.errors.len() == 0),
    {
        !self.had_error
    }

    /// Every error reported so far, in the order of the reports.
    pub fn errors(&self) -> (errors: &Vec<LoxResult>)
        ensures
            error_views(errors@) == self@.errors,
    {
        &self.errors
    }

    /// Parses the declarations up to the end of input, and returns them or
    /// the first error that ends the parse.
    #[verifier::loop_isolation(false)]
    pub fn parse(&mut self) -> (result: Result<Vec<Stmt>, LoxResult>)
        requires
            old(self).wf(),
        ensures
            final(self).wf(),
            ({
                let parsed = grammar::program(
                    old(self)@.tokens,
                    old(self)@.position,
                    old(self)@.errors,
                );
                &&& final(self)@.tokens == old(self)@.tokens
                &&& final(self)@.position == old(self)@.position + parsed.consumed
                &&& final(self)@.errors == parsed.log
                &&& is_stmts(result, parsed)
            }),
    {
        proof {
            reveal(grammar::program);
        }
        let mut statements: Vec<Stmt> = Vec::new();
        let ghost start = self.current as int;
        let ghost whole = grammar::program(self.input(), start, self.log());
        assert(stmt_views(statements@) =~= Seq::empty());

        while !self.is_at_end()
            invariant
                self.wf(),
                self.tokens == old(self).tokens,
                start == old(self).current,
                start <= self.current,
                whole == grammar::prepend(
                    (self.current - start) as nat,
                    stmt_views(statements@),
                    grammar::program(self.input(), self.current as int, self.log()),
                ),
            decreases self.tokens.len() - self.current,
        {
            proof {
                reveal(grammar::program);
            }
            let ghost before = stmt_views(statements@);
            let ghost rest = grammar::program(self.input(), self.current as int, self.log());
            match self.declaration() {
                Ok(statement) => {
                    statements.push(statement);
                    proof {
                        let next = grammar::program(
                            self.input(),
                            self.current as int,
                            self.log(),
                        );
                        assert(stmt_views(statements@) =~= before.push(statement@));
                        if next.node is Some {
                            assert(before + (seq![statement@] + next.node->0) =~= before.push(
                                statement@,
                            ) + next.node->0);
                        }
                    }
                },
                Err(e) => {
                    return Err(e);
                },
            }
        }
        proof {
            assert(stmt_views(statements@) + Seq::<StmtView>::empty() =~= stmt_views(
                statements@,
            ));
        }
        Ok(statements)
    }

    /// A declaration. After one that fails, the parser stands where the next
    /// statement may start.
    fn declaration(&mut self) -> (result: Result<Stmt, LoxResult>)
        requires
            old(self).wf(),
        ensures
            final(self).moved(
                old(self),
                grammar::declaration(old(self).input(), old(self).current as int, old(self).log()),
            ),
            is_stmt(
                result,
                grammar::declaration(old(self).input(), old(self).current as int, old(self).log()),
            ),
        decreases old(self).tokens.len() - old(self).current, 21nat,
    {
        proof {
            reveal(grammar::declaration);
            reveal(grammar::function);
            reveal(grammar::statement);
        }
        let res = if self.is_match(TokenType::Var) {
            self.var_declaration()
        } else if self.is_match(TokenType::Fun) {
            self.function()
        } else {
            self.statement()
        };

        if res.is_err() {
            self.synchronize();
        }
        res
    }

    fn statement(&mut self) -> (result: Result<Stmt, LoxResult>)
        requires
            old(self).wf(),
        ensures
            final(self).moved(
                old(self),
                grammar::statement(old(self).input(), old(self).current as int, old(self).log()),
            ),
            is_stmt(
                result,
                grammar::statement(old(self).input(), old(self).current as int, old(self).log()),
            ),
        decreases old(self).tokens.len() - old(self).current, 20nat,
    {
        proof {
            reveal(grammar::statement);
            reveal(grammar::if_statement);
            reveal(grammar::while_statement);
            reveal(grammar::for_statement);
            reveal(grammar::block);
        }
        if self.is_match(TokenType::If) {
            self.if_statement()
        } else if self.is_match(TokenType::Print) {
            self.print_statement()
        } else if self.is_match(TokenType::Return) {
            let keyword = self.previous().clone();
            self.return_statement(keyword)
        } else if self.is_match(TokenType::While) {
            self.while_statement()
        } else if self.is_match(TokenType::For) {
            self.for_statement()
        } else if self.is_match(TokenType::Break) {
            let keyword = self.previous().clone();
            self.break_statement(keyword)
        } else if self.is_match(TokenType::LeftBrace) {
            let statements = match self.block() {
                Ok(value) => value,
                Err(e) => {
                    return Err(e);
                },
            };
            let node = BlockStmt { statements };
            proof {
                lemma_block_view(node);
            }
            Ok(Stmt::Block(node))
        } else {
            self.expression_statement()
        }
    }

    /// The rest of a `for` statement, which becomes a `while` loop.
    fn for_statement(&mut self) -> (result: Result<Stmt, LoxResult>)
        requires
            old(self).wf(),
        ensures
            final(self).moved(
                old(self),
                grammar::for_statement(old(self).input(), old(self).current as int, old(self).log()),
            ),
            is_stmt(
                result,
                grammar::for_statement(old(self).input(), old(self).current as int, old(self).log()),
            ),
        decreases old(self).tokens.len() - old(self).current, 19nat,
    {
        proof {
            reveal(grammar::for_statement);
            reveal(grammar::statement);
        }
        match self.consume(TokenType::LeftParen, "Expect '(' after 'for'.") {
            Ok(_) => {},
            Err(e) => {
                return Err(e);
            },
        }
        let initializer = match self.for_initializer() {
            Ok(value) => value,
            Err(e) => {
                return Err(e);
            },
        };
        let condition = match self.optional_expression(TokenType::Semicolon) {
            Ok(value) => value,
            Err(e) => {
                return Err(e);
            },
        };

        match self.consume(TokenType::Semicolon, "Expect ';' after loop condition") {
            Ok(_) => {},
            Err(e) => {
                return Err(e);
            },
        }

        let increment = match self.optional_expression(TokenType::RightParen) {
            Ok(value) => value,
            Err(e) => {
                return Err(e);
            },
        };

        match self.consume(TokenType::RightParen, "Expect ')' after 'for' clauses") {
            Ok(_) => {},
            Err(e) => {
                return Err(e);
            },
        }
        let body = match self.statement() {
            Ok(value) => value,
            Err(e) => {
                return Err(e);
            },
        };
        Ok(desugar_for(initializer, condition, increment, body))
    }

    /// The first clause of a `for` statement, with its `;`.
    fn for_initializer(&mut self) -> (result: Result<Option<Stmt>, LoxResult>)
        requires
            old(self).wf(),
        ensures
            final(self).moved(
                old(self),
                grammar::for_initializer(
                    old(self).input(),
                    old(self).current as int,
                    old(self).log(),
                ),
            ),
            ({
                let parsed = grammar::for_initializer(
                    old(self).input(),
                    old(self).current as int,
                    old(self).log(),
                );
                match result {
                    Ok(s) => parsed.node == Some(crate::ast::optional_stmt_view(s))
                        && parsed.consumed > 0,
                    Err(x) => parsed.node is None && parsed.log.len() > 0 && x@
                        == parsed.log.last(),
                }
            }),
        decreases old(self).tokens.len() - old(self).current, 20nat,
    {
        proof {
            reveal(grammar::for_initializer);
        }
        if self.is_match(TokenType::Semicolon) {
            Ok(None)
        } else if self.is_match(TokenType::Var) {
            match self.var_declaration() {
                Ok(value) => Ok(Some(value)),
                Err(e) => Err(e),
            }
        } else {
            match self.expression_statement() {
                Ok(value) => Ok(Some(value)),
                Err(e) => Err(e),
            }
        }
    }

    /// An expression, unless a token of kind `closer` stands in its place.
    fn optional_expression(&mut self, closer: TokenType) -> (result: Result<
        Option<Expr>,
        LoxResult,
    >)
        requires
            old(self).wf(),
        ensures
            final(self).moved(
                old(self),
                grammar::optional_expression(
                    old(self).input(),
                    old(self).current as int,
                    old(self).log(),
                    closer,
                ),
            ),
            ({
                let parsed = grammar::optional_expression(
                    old(self).input(),
                    old(self).current as int,
                    old(self).log(),
                    closer,
                );
                match result {
                    Ok(e) => parsed.node == Some(crate::ast::optional_expr_view(e)),
                    Err(x) => parsed.node is None && parsed.log.len() > 0 && x@
                        == parsed.log.last(),
                }
            }),
        decreases old(self).tokens.len() - old(self).current, 18nat,
    {
        proof {
            reveal(grammar::optional_expression);
        }
        if self.check(closer) {
            Ok(None)
        } else {
            match self.expression() {
                Ok(value) => Ok(Some(value)),
                Err(e) => Err(e),
            }
        }
    }

    fn if_statement(&mut self) -> (result: Result<Stmt, LoxResult>)
        requires
            old(self).wf(),
        ensures
            final(self).moved(
                old(self),
                grammar::if_statement(old(self).input(), old(self).current as int, old(self).log()),
            ),
            is_stmt(
                result,
                grammar::if_statement(old(self).input(), old(self).current as int, old(self).log()),
            ),
        decreases old(self).tokens.len() - old(self).current, 19nat,
    {
        proof {
            reveal(grammar::if_statement);
            reveal(grammar::statement);
        }
        match self.consume(TokenType::LeftParen, "Expect '(' after 'if'.") {
            Ok(_) => {},
            Err(e) => {
                return Err(e);
            },
        }

        let condition = match self.expression() {
            Ok(value) => value,
            Err(e) => {
                return Err(e);
            },
        };
        match self.consume(TokenType::RightParen, "Expect ')' after 'if'.") {
            Ok(_) => {},
            Err(e) => {
                return Err(e);
            },
        }

        let then_branch = match self.statement() {
            Ok(value) => value,
            Err(e) => {
                return Err(e);
            },
        };
        let else_branch = if self.is_match(TokenType::Else) {
            match self.statement() {
                Ok(value) => Some(Box::new(value)),
                Err(e) => {
                    return Err(e);
                },
            }
        } else {
            None
        };

        Ok(Stmt::If(IfStmt { condition, then_branch: Box::new(then_branch), else_branch }))
    }

    /// The declarations of a block, up to and with its closing brace.
    #[verifier::loop_isolation(false)]
    fn block(&mut self) -> (result: Result<Vec<Stmt>, LoxResult>)
        requires
            old(self).wf(),
        ensures
            final(self).moved(
                old(self),
                grammar::block(old(self).input(), old(self).current as int, old(self).log()),
            ),
            is_stmts(
                result,
                grammar::block(old(self).input(), old(self).current as int, old(self).log()),
            ),
        decreases old(self).tokens.len() - old(self).current, 22nat,
    {
        proof {
            reveal(grammar::block);
            reveal(grammar::declaration);
        }
        let mut statements: Vec<Stmt> = Vec::new();
        let ghost start = self.current as int;
        let ghost whole = grammar::block(self.input(), start, self.log());
        assert(stmt_views(statements@) =~= Seq::empty());
        proof {
            let rest = grammar::block(self.input(), start, self.log());
            if rest.node is Some {
                assert(Seq::<StmtView>::empty() + rest.node->0 =~= rest.node->0);
            }
        }

        while !self.check(TokenType::RightBrace) && !self.is_at_end()
            invariant
                self.wf(),
                self.tokens == old(self).tokens,
                start == old(self).current,
                start <= self.current,
                whole == grammar::prepend(
                    (self.current - start) as nat,
                    stmt_views(statements@),
                    grammar::block(self.input(), self.current as int, self.log()),
                ),
            decreases self.tokens.len() - self.current,
        {
            proof {
                reveal(grammar::block);
                reveal(grammar::declaration);
            }
            let ghost before = stmt_views(statements@);
            match self.declaration() {
                Ok(statement) => {
                    statements.push(statement);
                    proof {
                        let next = grammar::block(self.input(), self.current as int, self.log());
                        assert(stmt_views(statements@) =~= before.push(statement@));
                        if next.node is Some {
                            assert(before + (seq![statement@] + next.node->0) =~= before.push(
                                statement@,
                            ) + next.node->0);
                        }
                    }
                },
                Err(e) => {
                    return Err(e);
                },
            }
        }

        match self.consume(TokenType::RightBrace, "Expect '}' after block.") {
            Ok(_) => {},
            Err(e) => {
                return Err(e);
            },
        }
        proof {
            assert(stmt_views(statements@) + Seq::<StmtView>::empty() =~= stmt_views(
                statements@,
            ));
        }
        Ok(statements)
    }

    /// An expression and the `;` behind it.
    fn terminated(&mut self) -> (result: Result<Expr, LoxResult>)
        requires
            old(self).wf(),
        ensures
            final(self).moved(
                old(self),
                grammar::terminated(old(self).input(), old(self).current as int, old(self).log()),
            ),
            is_expr(
                result,
                grammar::terminated(old(self).input(), old(self).current as int, old(self).log()),
            ),
        decreases old(self).tokens.len() - old(self).current, 18nat,
    {
        proof {
            reveal(grammar::terminated);
        }
        let value = match self.expression() {
            Ok(value) => value,
            Err(e) => {
                return Err(e);
            },
        };
        match self.consume(TokenType::Semicolon, "Expect ';' after value.") {
            Ok(_) => {},
            Err(e) => {
                return Err(e);
            },
        }
        Ok(value)
    }

    fn print_statement(&mut self) -> (result: Result<Stmt, LoxResult>)
        requires
            old(self).wf(),
        ensures
            final(self).moved(
                old(self),
                grammar::print_statement(old(self).input(), old(self).current as int, old(self).log()),
            ),
            is_stmt(
                result,
                grammar::print_statement(old(self).input(), old(self).current as int, old(self).log()),
            ),
        decreases old(self).tokens.len() - old(self).current, 19nat,
    {
        proof {
            reveal(grammar::print_statement);
        }
        let value = match self.terminated() {
            Ok(value) => value,
            Err(e) => {
                return Err(e);
            },
        };
        Ok(Stmt::Print(PrintStmt { expression: value }))
    }

    fn return_statement(&mut self, keyword: Token) -> (result: Result<Stmt, LoxResult>)
        requires
            old(self).wf(),
        ensures
            final(self).moved(
                old(self),
                grammar::return_statement(old(self).input(), old(self).current as int, old(self).log(), keyword@),
            ),
            is_stmt(
                result,
                grammar::return_statement(old(self).input(), old(self).current as int, old(self).log(), keyword@),
            ),
        decreases old(self).tokens.len() - old(self).current, 19nat,
    {
        proof {
            reveal(grammar::return_statement);
        }
        let value = match self.optional_expression(TokenType::Semicolon) {
            Ok(value) => value,
            Err(e) => {
                return Err(e);
            },
        };
        match self.consume(TokenType::Semicolon, "Expect ';' after return value.") {
            Ok(_) => {},
            Err(e) => {
                return Err(e);
            },
        }
        Ok(Stmt::Return(ReturnStmt { keyword, value }))
    }

    fn break_statement(&mut self, keyword: Token) -> (result: Result<Stmt, LoxResult>)
        requires
            old(self).wf(),
            old(self).current >= 1,
        ensures
            final(self).moved(
                old(self),
                grammar::break_statement(
                    old(self).input(),
                    old(self).current as int,
                    old(self).log(),
                    keyword@,
                ),
            ),
            ({
                let parsed = grammar::break_statement(
                    old(self).input(),
                    old(self).current as int,
                    old(self).log(),
                    keyword@,
                );
                match result {
                    Ok(s) => parsed.node == Some(s@),
                    Err(x) => parsed.node is None && parsed.log.len() > 0 && x@
                        == parsed.log.last(),
                }
            }),
    {
        match self.consume(TokenType::Semicolon, "Expect ';' after 'break'.") {
            Ok(_) => {},
            Err(e) => {
                return Err(e);
            },
        }
        Ok(Stmt::Break(BreakStmt { token: keyword }))
    }

    fn var_declaration(&mut self) -> (result: Result<Stmt, LoxResult>)
        requires
            old(self).wf(),
        ensures
            final(self).moved(
                old(self),
                grammar::var_declaration(old(self).input(), old(self).current as int, old(self).log()),
            ),
            is_stmt(
                result,
                grammar::var_declaration(old(self).input(), old(self).current as int, old(self).log()),
            ),
        decreases old(self).tokens.len() - old(self).current, 19nat,
    {
        proof {
            reveal(grammar::var_declaration);
        }
        let name = match self.consume(TokenType::Identifier, "Expected variable name") {
            Ok(value) => value,
            Err(e) => {
                return Err(e);
            },
        };

        let initializer = if self.is_match(TokenType::Assign) {
            match self.expression() {
                Ok(value) => Some(value),
                Err(e) => {
                    return Err(e);
                },
            }
        } else {
            None
        };

        match self.consume(TokenType::Semicolon, "Expected ';' after variable declaration.") {
            Ok(_) => {},
            Err(e) => {
                return Err(e);
            },
        }

        Ok(Stmt::Var(VarStmt { name, initializer }))
    }

    /// The rest of a function declaration: name, parameters and body.
    fn function(&mut self) -> (result: Result<Stmt, LoxResult>)
        requires
            old(self).wf(),
        ensures
            final(self).moved(
                old(self),
                grammar::function(old(self).input(), old(self).current as int, old(self).log()),
            ),
            is_stmt(
                result,
                grammar::function(old(self).input(), old(self).current as int, old(self).log()),
            ),
        decreases old(self).tokens.len() - old(self).current, 19nat,
    {
        proof {
            reveal(grammar::function);
            reveal(grammar::block);
        }
        let name = match self.consume(TokenType::Identifier, "Expect function name.") {
            Ok(value) => value,
            Err(e) => {
                return Err(e);
            },
        };
        match self.consume(TokenType::LeftParen, "Expect '(' after function name.") {
            Ok(_) => {},
            Err(e) => {
                return Err(e);
            },
        }
        let params = match self.parameters() {
            Ok(value) => value,
            Err(e) => {
                return Err(e);
            },
        };
        match self.consume(TokenType::RightParen, "Expect ')' after parameters.") {
            Ok(_) => {},
            Err(e) => {
                return Err(e);
            },
        }
        match self.consume(TokenType::LeftBrace, "Expect '{' before function body.") {
            Ok(_) => {},
            Err(e) => {
                return Err(e);
            },
        }
        let body = match self.block() {
            Ok(value) => value,
            Err(e) => {
                return Err(e);
            },
        };
        let node = FunctionStmt { name, params, body };
        proof {
            lemma_function_view(node);
        }
        Ok(Stmt::Function(node))
    }

    /// The names of a function's parameters, up to the closing parenthesis.
    #[verifier::loop_isolation(false)]
    fn parameters(&mut self) -> (result: Result<Vec<Token>, LoxResult>)
        requires
            old(self).wf(),
        ensures
            final(self).moved(
                old(self),
                grammar::parameters(old(self).input(), old(self).current as int, old(self).log()),
            ),
            ({
                let parsed = grammar::parameters(
                    old(self).input(),
                    old(self).current as int,
                    old(self).log(),
                );
                match result {
                    Ok(list) => parsed.node == Some(token_views(list@)),
                    Err(x) => parsed.node is None && parsed.log.len() > 0 && x@
                        == parsed.log.last(),
                }
            }),
    {
        proof {
            reveal(grammar::parameter_list);
        }
        let mut params: Vec<Token> = Vec::new();
        assert(token_views(params@) =~= Seq::empty());
        if self.check(TokenType::RightParen) {
            return Ok(params);
        }
        let ghost start = self.current as int;
        let ghost whole = grammar::parameter_list(self.input(), start, self.log());
        let mut more = true;
        while more
            invariant
                self.wf(),
                self.tokens == old(self).tokens,
                start == old(self).current,
                start <= self.current,
                whole == if more {
                    grammar::prepend(
                        (self.current - start) as nat,
                        token_views(params@),
                        grammar::parameter_list(self.input(), self.current as int, self.log()),
                    )
                } else {
                    grammar::done(
                        (self.current - start) as nat,
                        self.log(),
                        token_views(params@),
                    )
                },
            decreases self.tokens.len() - self.current + (if more { 1int } else { 0int }),
        {
            proof {
                reveal(grammar::parameter_list);
            }
            let ghost before = token_views(params@);
            let name = match self.consume(TokenType::Identifier, "Expect parameter name.") {
                Ok(name) => name,
                Err(e) => {
                    return Err(e);
                },
            };
            params.push(name);
            more = self.is_match(TokenType::Comma);
            proof {
                assert(token_views(params@) =~= before.push(name@));
                assert(before + seq![name@] =~= before.push(name@));
                if more {
                    let next = grammar::parameter_list(
                        self.input(),
                        self.current as int,
                        self.log(),
                    );
                    if next.node is Some {
                        assert(before + (seq![name@] + next.node->0) =~= before.push(name@)
                            + next.node->0);
                    }
                }
            }
        }
        Ok(params)
    }

    fn while_statement(&mut self) -> (result: Result<Stmt, LoxResult>)
        requires
            old(self).wf(),
        ensures
            final(self).moved(
                old(self),
                grammar::while_statement(old(self).input(), old(self).current as int, old(self).log()),
            ),
            is_stmt(
                result,
                grammar::while_statement(old(self).input(), old(self).current as int, old(self).log()),
            ),
        decreases old(self).tokens.len() - old(self).current, 19nat,
    {
        proof {
            reveal(grammar::while_statement);
            reveal(grammar::statement);
        }
        match self.consume(TokenType::LeftParen, "Expect '(' after while.") {
            Ok(_) => {},
            Err(e) => {
                return Err(e);
            },
        }
        let condition = match self.expression() {
            Ok(value) => value,
            Err(e) => {
                return Err(e);
            },
        };
        match self.consume(TokenType::RightParen, "Expect ')' after while.") {
            Ok(_) => {},
            Err(e) => {
                return Err(e);
            },
        }
        let body = match self.statement() {
            Ok(value) => Box::new(value),
            Err(e) => {
                return Err(e);
            },
        };
        Ok(Stmt::While(WhileStmt { condition, body }))
    }

    fn expression_statement(&mut self) -> (result: Result<Stmt, LoxResult>)
        requires
            old(self).wf(),
        ensures
            final(self).moved(
                old(self),
                grammar::expression_statement(old(self).input(), old(self).current as int, old(self).log()),
            ),
            is_stmt(
                result,
                grammar::expression_statement(old(self).input(), old(self).current as int, old(self).log()),
            ),
        decreases old(self).tokens.len() - old(self).current, 19nat,
    {
        proof {
            reveal(grammar::expression_statement);
        }
        let expr = match self.terminated() {
            Ok(value) => value,
            Err(e) => {
                return Err(e);
            },
        };
        Ok(Stmt::Expression(ExpressionStmt { expression: expr }))
    }

    fn expression(&mut self) -> (result: Result<Expr, LoxResult>)
        requires
            old(self).wf(),
        ensures
            final(self).moved(
                old(self),
                grammar::expression(old(self).input(), old(self).current as int, old(self).log()),
            ),
            is_expr(
                result,
                grammar::expression(old(self).input(), old(self).current as int, old(self).log()),
            ),
        decreases old(self).tokens.len() - old(self).current, 17nat,
    {
        proof {
            reveal(grammar::expression);
            reveal(grammar::assignment);
        }
        self.assignment()
    }

    fn assignment(&mut self) -> (result: Result<Expr, LoxResult>)
        requires
            old(self).wf(),
        ensures
            final(self).moved(
                old(self),
                grammar::assignment(old(self).input(), old(self).current as int, old(self).log()),
            ),
            is_expr(
                result,
                grammar::assignment(old(self).input(), old(self).current as int, old(self).log()),
            ),
        decreases old(self).tokens.len() - old(self).current, 16nat,
    {
        proof {
            reveal(grammar::assignment);
            reveal(grammar::binary);
        }
        let expr = match self.binary(0) {
            Ok(value) => value,
            Err(e) => {
                return Err(e);
            },
        };

        if self.is_match(TokenType::Assign) {
            let equals = self.previous().clone();
            let value = match self.assignment() {
                Ok(value) => value,
                Err(e) => {
                    return Err(e);
                },
            };

            if let Expr::Variable(target) = expr {
                return Ok(Expr::Assign(AssignExpr { name: target.name, value: Box::new(value) }));
            }
            self.error(&equals, "Invalid assignment target.");
        }
        Ok(expr)
    }

    /// An expression whose loosest operators are of tier `level`: `or`,
    /// `and`, equality, comparison, terms, factors; above them the unary
    /// operators.
    #[verifier::loop_isolation(false)]
    fn binary(&mut self, level: u8) -> (result: Result<Expr, LoxResult>)
        requires
            old(self).wf(),
            level <= 6,
        ensures
            final(self).moved(
                old(self),
                grammar::binary(
                    old(self).input(),
                    old(self).current as int,
                    old(self).log(),
                    level as nat,
                ),
            ),
            is_expr(
                result,
                grammar::binary(
                    old(self).input(),
                    old(self).current as int,
                    old(self).log(),
                    level as nat,
                ),
            ),
        decreases old(self).tokens.len() - old(self).current, grammar::tier_rank(level as nat),
    {
        proof {
            reveal(grammar::binary);
            reveal(grammar::operations);
            reveal(grammar::unary);
        }
        if level >= 6 {
            return self.unary();
        }
        let ghost start = self.current as int;
        let ghost whole = grammar::binary(self.input(), start, self.log(), level as nat);
        let mut expr = match self.binary(level + 1) {
            Ok(value) => value,
            Err(e) => {
                return Err(e);
            },
        };

        // Loop until we don't see any more operators of this tier
        while self.at_operator(level)
            invariant
                self.wf(),
                self.tokens == old(self).tokens,
                start == old(self).current,
                start < self.current,
                level < 6,
                whole == grammar::skip(
                    (self.current - start) as nat,
                    grammar::operations(
                        self.input(),
                        self.current as int,
                        self.log(),
                        level as nat,
                        expr@,
                    ),
                ),
            decreases self.tokens.len() - self.current,
        {
            proof {
                reveal(grammar::binary);
                reveal(grammar::operations);
                reveal(grammar::unary);
            }
            self.advance();
            let operator = self.previous().clone();
            let right = match self.binary(level + 1) {
                Ok(right) => right,
                Err(e) => {
                    return Err(e);
                },
            };
            expr = if level <= 1 {
                Expr::Logical(LogicalExpr { left: Box::new(expr), operator, right: Box::new(right) })
            } else {
                Expr::Binary(BinaryExpr { left: Box::new(expr), operator, right: Box::new(right) })
            };
        }

        Ok(expr)
    }

    /// It matches a unary operator or anything of higher precedence.
    fn unary(&mut self) -> (result: Result<Expr, LoxResult>)
        requires
            old(self).wf(),
        ensures
            final(self).moved(
                old(self),
                grammar::unary(old(self).input(), old(self).current as int, old(self).log()),
            ),
            is_expr(
                result,
                grammar::unary(old(self).input(), old(self).current as int, old(self).log()),
            ),
        decreases old(self).tokens.len() - old(self).current, 3nat,
    {
        proof {
            reveal(grammar::unary);
            reveal(grammar::call);
        }
        if self.check(TokenType::Bang) || self.check(TokenType::Minus) {
            self.advance();
            let operator = self.previous().clone();
            let right = match self.unary() {
                Ok(value) => value,
                Err(e) => {
                    return Err(e);
                },
            };
            return Ok(Expr::Unary(UnaryExpr { operator, right: Box::new(right) }));
        }
        self.call()
    }

    /// It matches a primary and every call made of it.
    #[verifier::loop_isolation(false)]
    #[verifier::rlimit(60)]
    fn call(&mut self) -> (result: Result<Expr, LoxResult>)
        requires
            old(self).wf(),
        ensures
            final(self).moved(
                old(self),
                grammar::call(old(self).input(), old(self).current as int, old(self).log()),
            ),
            is_expr(
                result,
                grammar::call(old(self).input(), old(self).current as int, old(self).log()),
            ),
        decreases old(self).tokens.len() - old(self).current, 2nat,
    {
        proof {
            reveal(grammar::call);
            reveal(grammar::calls);
            reveal(grammar::primary);
            reveal(grammar::arguments);
        }
        let ghost start = self.current as int;
        let ghost whole = grammar::call(self.input(), start, self.log());
        let mut expr = match self.primary() {
            Ok(value) => value,
            Err(e) => {
                return Err(e);
            },
        };

        while self.check(TokenType::LeftParen)
            invariant
                self.wf(),
                self.tokens == old(self).tokens,
                start == old(self).current,
                start < self.current,
                whole == grammar::skip(
                    (self.current - start) as nat,
                    grammar::calls(self.input(), self.current as int, self.log(), expr@),
                ),
            decreases self.tokens.len() - self.current,
        {
            proof {
                reveal(grammar::call);
                reveal(grammar::calls);
                reveal(grammar::primary);
                reveal(grammar::arguments);
            }
            self.advance();
            let arguments = match self.arguments() {
                Ok(arguments) => arguments,
                Err(e) => {
                    return Err(e);
                },
            };
            let paren = match self.consume(TokenType::RightParen, "Expect ')' after arguments.") {
                Ok(paren) => paren,
                Err(e) => {
                    return Err(e);
                },
            };
            let ghost callee = expr@;
            let node = CallExpr { callee: Box::new(expr), paren, arguments };
            proof {
                lemma_call_view(node);
                assert(*node.callee == expr);
            }
            expr = Expr::Call(node);
        }

        Ok(expr)
    }

    /// The arguments of a call, up to its closing parenthesis.
    fn arguments(&mut self) -> (result: Result<Vec<Expr>, LoxResult>)
        requires
            old(self).wf(),
        ensures
            final(self).moved(
                old(self),
                grammar::arguments(old(self).input(), old(self).current as int, old(self).log()),
            ),
            ({
                let parsed = grammar::arguments(
                    old(self).input(),
                    old(self).current as int,
                    old(self).log(),
                );
                match result {
                    Ok(list) => parsed.node == Some(expr_views(list@)),
                    Err(x) => parsed.node is None && parsed.log.len() > 0 && x@
                        == parsed.log.last(),
                }
            }),
        decreases old(self).tokens.len() - old(self).current, 19nat,
    {
        proof {
            reveal(grammar::arguments);
            reveal(grammar::argument_list);
        }
        let arguments: Vec<Expr> = Vec::new();
        assert(expr_views(arguments@) =~= Seq::empty());
        if self.check(TokenType::RightParen) {
            Ok(arguments)
        } else {
            let ghost rest = grammar::argument_list(
                self.input(),
                self.current as int,
                self.log(),
            );
            proof {
                if rest.node is Some {
                    assert(Seq::<ExprView>::empty() + rest.node->0 =~= rest.node->0);
                }
            }
            self.argument_list(arguments)
        }
    }

    /// One argument and those behind it, added to `arguments`.
    fn argument_list(&mut self, arguments: Vec<Expr>) -> (result: Result<Vec<Expr>, LoxResult>)
        requires
            old(self).wf(),
        ensures
            final(self).moved(
                old(self),
                grammar::argument_list(
                    old(self).input(),
                    old(self).current as int,
                    old(self).log(),
                ),
            ),
            ({
                let parsed = grammar::argument_list(
                    old(self).input(),
                    old(self).current as int,
                    old(self).log(),
                );
                match result {
                    Ok(list) => parsed.node is Some && expr_views(list@) == expr_views(arguments@)
                        + parsed.node->0,
                    Err(x) => parsed.node is None && parsed.log.len() > 0 && x@
                        == parsed.log.last(),
                }
            }),
        decreases old(self).tokens.len() - old(self).current, 18nat,
    {
        proof {
            reveal(grammar::argument_list);
            reveal(grammar::expression);
        }
        let mut arguments = arguments;
        let ghost before = expr_views(arguments@);
        let argument = match self.expression() {
            Ok(argument) => argument,
            Err(e) => {
                return Err(e);
            },
        };
        arguments.push(argument);
        assert(expr_views(arguments@) =~= before + seq![argument@]);
        if self.is_match(TokenType::Comma) {
            let ghost rest = grammar::argument_list(
                self.input(),
                self.current as int,
                self.log(),
            );
            proof {
                if rest.node is Some {
                    assert((before + seq![argument@]) + rest.node->0 =~= before + (seq![
                        argument@,
                    ] + rest.node->0));
                }
            }
            self.argument_list(arguments)
        } else {
            Ok(arguments)
        }
    }

    /// It matches a primary, the highest level of precedence: numbers,
    /// strings, `true`, `false`, `nil`, a name, an expression in parentheses.
    fn primary(&mut self) -> (result: Result<Expr, LoxResult>)
        requires
            old(self).wf(),
        ensures
            final(self).moved(
                old(self),
                grammar::primary(old(self).input(), old(self).current as int, old(self).log()),
            ),
            is_expr(
                result,
                grammar::primary(old(self).input(), old(self).current as int, old(self).log()),
            ),
        decreases old(self).tokens.len() - old(self).current, 0nat,
    {
        proof {
            reveal(grammar::primary);
            reveal(grammar::expression);
        }
        let kind = self.peek().token_type();
        if kind == TokenType::False {
            self.advance();
            Ok(Expr::Literal(LiteralExpr { value: Literal::Bool(false) }))
        } else if kind == TokenType::True {
            self.advance();
            Ok(Expr::Literal(LiteralExpr { value: Literal::Bool(true) }))
        } else if kind == TokenType::Nil {
            self.advance();
            Ok(Expr::Literal(LiteralExpr { value: Literal::Nil }))
        } else if kind == TokenType::Number || kind == TokenType::String {
            self.advance();
            let value = match &self.previous().literal {
                Some(value) => value.clone(),
                None => Literal::Nil,
            };
            Ok(Expr::Literal(LiteralExpr { value }))
        } else if kind == TokenType::LeftParen {
            self.advance();
            let expr = match self.expression() {
                Ok(value) => value,
                Err(e) => {
                    return Err(e);
                },
            };
            match self.consume(TokenType::RightParen, "Expect ')' after expression") {
                Ok(_) => {},
                Err(e) => {
                    return Err(e);
                },
            }
            Ok(Expr::Grouping(GroupingExpr { expression: Box::new(expr) }))
        } else if kind == TokenType::Identifier {
            self.advance();
            Ok(Expr::Variable(VariableExpr { name: self.previous().clone() }))
        } else {
            let found = self.peek().clone();
            Err(self.error(&found, "Expect expression"))
        }
    }

    /// Reads a token of kind `ttype`, or reports `message` at the token found.
    fn consume(&mut self, ttype: TokenType, message: &str) -> (result: Result<Token, LoxResult>)
        requires
            old(self).wf(),
        ensures
            final(self).moved(
                old(self),
                grammar::expect(
                    old(self).input(),
                    old(self).current as int,
                    ttype,
                    message@,
                    old(self).log(),
                ),
            ),
            ({
                let parsed = grammar::expect(
                    old(self).input(),
                    old(self).current as int,
                    ttype,
                    message@,
                    old(self).log(),
                );
                match result {
                    Ok(token) => parsed.node == Some(token@),
                    Err(x) => parsed.node is None && parsed.log.len() > 0 && x@
                        == parsed.log.last(),
                }
            }),
    {
        if self.check(ttype) {
            self.advance();
            Ok(self.previous().clone())
        } else {
            let found = self.peek().clone();
            Err(self.error(&found, message))
        }
    }

    /// Reports an error at `token`.
    fn error(&mut self, token: &Token, message: &str) -> (err: LoxResult)
        requires
            old(self).wf(),
        ensures
            final(self).wf(),
            final(self).tokens == old(self).tokens,
            final(self).current == old(self).current,
            final(self).log() == old(self).log().push(error_at(token@, message@)),
            err@ == error_at(token@, message@),
    {
        self.had_error = true;
        let err = LoxResult::parse_error(token, message);
        let ghost before = self.log();
        self.errors.push(err.clone());
        assert(self.log() =~= before.push(err@));
        err
    }

    /// Discards tokens up to the place where the next statement may start.
    #[verifier::loop_isolation(false)]
    fn synchronize(&mut self)
        requires
            old(self).wf(),
        ensures
            final(self).wf(),
            final(self).tokens == old(self).tokens,
            final(self).errors == old(self).errors,
            final(self).current == grammar::synchronized(
                old(self).input(),
                old(self).current as int,
            ),
            final(self).current >= old(self).current,
    {
        proof {
            reveal(grammar::resume_at);
        }
        if self.is_at_end() {
            return ;
        }
        self.advance();

        while !self.is_at_end()
            invariant
                self.wf(),
                self.tokens == old(self).tokens,
                self.errors == old(self).errors,
                self.current > old(self).current,
                grammar::resume_at(self.input(), self.current as int) == grammar::resume_at(
                    self.input(),
                    old(self).current + 1,
                ),
            decreases self.tokens.len() - self.current,
        {
            proof {
                reveal(grammar::resume_at);
            }
            if self.previous().is(TokenType::Semicolon) {
                return ;
            }
            if starts_statement_kind(self.peek().token_type()) {
                return ;
            }
            self.advance();
        }
    }

    /// Like the `.check()` method, but consumes the token if true
    fn is_match(&mut self, ttype: TokenType) -> (found: bool)
        requires
            old(self).wf(),
        ensures
            final(self).wf(),
            final(self).tokens == old(self).tokens,
            final(self).errors == old(self).errors,
            found == grammar::check(old(self).input(), old(self).current as int, ttype),
            final(self).current == old(self).current + if found {
                1int
            } else {
                0int
            },
    {
        if self.check(ttype) {
            self.advance();
            true
        } else {
            false
        }
    }

    fn check(&self, ttype: TokenType) -> (found: bool)
        requires
            self.wf(),
        ensures
            found == grammar::check(self.input(), self.current as int, ttype),
    {
        if self.is_at_end() {
            false
        } else {
            self.peek().is(ttype)
        }
    }

    /// Whether the next token is a binary operator of tier `level`.
    fn at_operator(&self, level: u8) -> (found: bool)
        requires
            self.wf(),
        ensures
            found == (!grammar::at_end(self.input(), self.current as int)
                && grammar::is_operator(self.input()[self.current as int].kind, level as nat)),
    {
        if self.is_at_end() {
            false
        } else {
            is_operator_kind(self.peek().token_type(), level)
        }
    }

    /// Moves over the next token, unless it is the end of input.
    fn advance(&mut self)
        requires
            old(self).wf(),
        ensures
            final(self).wf(),
            final(self).tokens == old(self).tokens,
            final(self).errors == old(self).errors,
            final(self).current == old(self).current + if grammar::at_end(
                old(self).input(),
                old(self).current as int,
            ) {
                0int
            } else {
                1int
            },
    {
        if !self.is_at_end() {
            self.current += 1;
        }
    }

    fn is_at_end(&self) -> (end: bool)
        requires
            self.wf(),
        ensures
            end == grammar::at_end(self.input(), self.current as int),
    {
        self.peek().is(TokenType::Eof)
    }

    fn peek(&self) -> (token: &Token)
        requires
            self.wf(),
        ensures
            *token == self.tokens@[self.current as int],
            token@ == self.input()[self.current as int],
    {
        &self.tokens[self.current]
    }

    fn previous(&self) -> (token: &Token)
        requires
            self.wf(),
            self.current >= 1,
        ensures
            *token == self.tokens@[self.current - 1],
            token@ == self.input()[self.current - 1],
    {
        &self.tokens[self.current - 1]
    }
}

} // verus!
