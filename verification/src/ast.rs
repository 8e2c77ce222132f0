//! The syntax tree: expressions and statements.
use vstd::prelude::*;
use crate::tokens::{token_views, Literal, LiteralView, Token, TokenView};

verus! {

/// An expression.
#[derive(Debug, PartialEq)]
pub enum Expr {
    Assign(AssignExpr),
    Binary(BinaryExpr),
    Call(CallExpr),
    Grouping(GroupingExpr),
    Literal(LiteralExpr),
    Logical(LogicalExpr),
    Unary(UnaryExpr),
    Variable(VariableExpr),
}

/// `name = value`.
#[derive(Debug, PartialEq)]
pub struct AssignExpr {
    pub name: Token,
    pub value: Box<Expr>,
}

/// `left operator right`, for an operator of arithmetic or comparison.
#[derive(Debug, PartialEq)]
pub struct BinaryExpr {
    pub left: Box<Expr>,
    pub operator: Token,
    pub right: Box<Expr>,
}

/// `callee(arguments)`.
#[derive(Debug, PartialEq)]
pub struct CallExpr {
    pub callee: Box<Expr>,
    /// The closing parenthesis, for the place of a failed call.
    pub paren: Token,
    pub arguments: Vec<Expr>,
}

/// `(expression)`.
#[derive(Debug, PartialEq)]
pub struct GroupingExpr {
    pub expression: Box<Expr>,
}

/// A literal.
#[derive(Debug, PartialEq)]
pub struct LiteralExpr {
    pub value: Literal,
}

/// `left or right`, or `left and right`.
#[derive(Debug, PartialEq)]
pub struct LogicalExpr {
    pub left: Box<Expr>,
    pub operator: Token,
    pub right: Box<Expr>,
}

/// `operator right`.
#[derive(Debug, PartialEq)]
pub struct UnaryExpr {
    pub operator: Token,
    pub right: Box<Expr>,
}

/// A name that stands for the value of its variable.
#[derive(Debug, PartialEq)]
pub struct VariableExpr {
    pub name: Token,
}

/// A statement.
#[derive(Debug, PartialEq)]
pub enum Stmt {
    Block(BlockStmt),
    Break(BreakStmt),
    Expression(ExpressionStmt),
    Function(FunctionStmt),
    If(IfStmt),
    Print(PrintStmt),
    Return(ReturnStmt),
    Var(VarStmt),
    While(WhileStmt),
}

/// `{ statements }`.
#[derive(Debug, PartialEq)]
pub struct BlockStmt {
    pub statements: Vec<Stmt>,
}

/// `break;`.
#[derive(Debug, PartialEq)]
pub struct BreakStmt {
    pub token: Token,
}

/// `expression;`.
#[derive(Debug, PartialEq)]
pub struct ExpressionStmt {
    pub expression: Expr,
}

/// `fun name(params) { body }`.
#[derive(Debug, PartialEq)]
pub struct FunctionStmt {
    pub name: Token,
    pub params: Vec<Token>,
    pub body: Vec<Stmt>,
}

/// `if (condition) then_branch else else_branch`.
#[derive(Debug, PartialEq)]
pub struct IfStmt {
    pub condition: Expr,
    pub then_branch: Box<Stmt>,
    pub else_branch: Option<Box<Stmt>>,
}

/// `print expression;`.
#[derive(Debug, PartialEq)]
pub struct PrintStmt {
    pub expression: Expr,
}

/// `return value;`.
#[derive(Debug, PartialEq)]
pub struct ReturnStmt {
    pub keyword: Token,
    pub value: Option<Expr>,
}

/// `var name = initializer;`.
#[derive(Debug, PartialEq)]
pub struct VarStmt {
    pub name: Token,
    pub initializer: Option<Expr>,
}

/// `while (condition) body`.
#[derive(Debug, PartialEq)]
pub struct WhileStmt {
    pub condition: Expr,
    pub body: Box<Stmt>,
}

/// The mathematical content of an [`Expr`].
#[allow(inconsistent_fields)]
pub enum ExprView {
    Assign { name: TokenView, value: Box<ExprView> },
    Binary { left: Box<ExprView>, operator: TokenView, right: Box<ExprView> },
    Call { callee: Box<ExprView>, paren: TokenView, arguments: Seq<ExprView> },
    Grouping { expression: Box<ExprView> },
    Literal { value: LiteralView },
    Logical { left: Box<ExprView>, operator: TokenView, right: Box<ExprView> },
    Unary { operator: TokenView, right: Box<ExprView> },
    Variable { name: TokenView },
}

/// The mathematical content of a [`Stmt`].
#[allow(inconsistent_fields)]
pub enum StmtView {
    Block { statements: Seq<StmtView> },
    Break { token: TokenView },
    Expression { expression: ExprView },
    Function { name: TokenView, params: Seq<TokenView>, body: Seq<StmtView> },
    If { condition: ExprView, then_branch: Box<StmtView>, else_branch: Option<Box<StmtView>> },
    Print { expression: ExprView },
    Return { keyword: TokenView, value: Option<ExprView> },
    Var { name: TokenView, initializer: Option<ExprView> },
    While { condition: ExprView, body: Box<StmtView> },
}

/// The view of an expression.
pub open spec fn expr_view(e: Expr) -> ExprView
    decreases e,
{
    match e {
        Expr::Assign(e) => ExprView::Assign { name: e.name@, value: Box::new(expr_view(*e.value)) },
        Expr::Binary(e) => ExprView::Binary {
            left: Box::new(expr_view(*e.left)),
            operator: e.operator@,
            right: Box::new(expr_view(*e.right)),
        },
        Expr::Call(e) => ExprView::Call {
            callee: Box::new(expr_view(*e.callee)),
            paren: e.paren@,
            arguments: Seq::new(
                e.arguments.len() as nat,
                |i: int|
                    if 0 <= i < e.arguments.len() {
                        expr_view(e.arguments[i])
                    } else {
                        ExprView::Literal { value: LiteralView::Nil }
                    },
            ),
        },
        Expr::Grouping(e) => ExprView::Grouping { expression: Box::new(expr_view(*e.expression)) },
        Expr::Literal(e) => ExprView::Literal { value: e.value@ },
        Expr::Logical(e) => ExprView::Logical {
            left: Box::new(expr_view(*e.left)),
            operator: e.operator@,
            right: Box::new(expr_view(*e.right)),
        },
        Expr::Unary(e) => ExprView::Unary {
            operator: e.operator@,
            right: Box::new(expr_view(*e.right)),
        },
        Expr::Variable(e) => ExprView::Variable { name: e.name@ },
    }
}

impl View for Expr {
    type V = ExprView;

    open spec fn view(&self) -> ExprView {
        expr_view(*self)
    }
}

/// The view of an expression that may be absent.
pub open spec fn optional_expr_view(e: Option<Expr>) -> Option<ExprView> {
    match e {
        Some(e) => Some(e@),
        None => None,
    }
}

/// The view of a statement.
pub open spec fn stmt_view(s: Stmt) -> StmtView
    decreases s,
{
    match s {
        Stmt::Block(s) => StmtView::Block {
            statements: Seq::new(
                s.statements.len() as nat,
                |i: int|
                    if 0 <= i < s.statements.len() {
                        stmt_view(s.statements[i])
                    } else {
                        StmtView::Block { statements: Seq::empty() }
                    },
            ),
        },
        Stmt::Break(s) => StmtView::Break { token: s.token@ },
        Stmt::Expression(s) => StmtView::Expression { expression: s.expression@ },
        Stmt::Function(s) => StmtView::Function {
            name: s.name@,
            params: Seq::new(s.params@.len(), |i: int| s.params@[i]@),
            body: Seq::new(
                s.body.len() as nat,
                |i: int|
                    if 0 <= i < s.body.len() {
                        stmt_view(s.body[i])
                    } else {
                        StmtView::Block { statements: Seq::empty() }
                    },
            ),
        },
        Stmt::If(s) => StmtView::If {
            condition: s.condition@,
            then_branch: Box::new(stmt_view(*s.then_branch)),
            else_branch: match s.else_branch {
                Some(branch) => Some(Box::new(stmt_view(*branch))),
                None => None,
            },
        },
        Stmt::Print(s) => StmtView::Print { expression: s.expression@ },
        Stmt::Return(s) => StmtView::Return {
            keyword: s.keyword@,
            value: optional_expr_view(s.value),
        },
        Stmt::Var(s) => StmtView::Var {
            name: s.name@,
            initializer: optional_expr_view(s.initializer),
        },
        Stmt::While(s) => StmtView::While {
            condition: s.condition@,
            body: Box::new(stmt_view(*s.body)),
        },
    }
}

impl View for Stmt {
    type V = StmtView;

    open spec fn view(&self) -> StmtView {
        stmt_view(*self)
    }
}

/// The view of a statement that may be absent.
pub open spec fn optional_stmt_view(s: Option<Stmt>) -> Option<StmtView> {
    match s {
        Some(s) => Some(s@),
        None => None,
    }
}

/// The views of a sequence of statements, in order.
pub open spec fn stmt_views(statements: Seq<Stmt>) -> Seq<StmtView> {
    Seq::new(statements.len(), |i: int| statements[i]@)
}

/// The views of a sequence of expressions, in order.
pub open spec fn expr_views(exprs: Seq<Expr>) -> Seq<ExprView> {
    Seq::new(exprs.len(), |i: int| exprs[i]@)
}

/// The view of a call's arguments is the views of the arguments.
pub proof fn lemma_call_view(e: CallExpr)
    ensures
        Expr::Call(e)@ == (ExprView::Call {
            callee: Box::new(e.callee@),
            paren: e.paren@,
            arguments: expr_views(e.arguments@),
        }),
{
    assert(Expr::Call(e)@->Call_arguments =~= expr_views(e.arguments@));
}

/// The view of a block is the views of its statements.
pub proof fn lemma_block_view(b: BlockStmt)
    ensures
        Stmt::Block(b)@ == (StmtView::Block { statements: stmt_views(b.statements@) }),
{
    assert(Stmt::Block(b)@->Block_statements =~= stmt_views(b.statements@));
}

/// The view of a function declaration holds the views of its parameters and
/// of the statements of its body.
pub proof fn lemma_function_view(f: FunctionStmt)
    ensures
        Stmt::Function(f)@ == (StmtView::Function {
            name: f.name@,
            params: token_views(f.params@),
            body: stmt_views(f.body@),
        }),
{
    assert(Stmt::Function(f)@->Function_body =~= stmt_views(f.body@));
    assert(Stmt::Function(f)@->Function_params =~= token_views(f.params@));
}

} // verus!
