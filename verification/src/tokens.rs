//! Tokens: the kinds the scanner tells apart, and what a token carries.
use vstd::prelude::*;

verus! {

/// The kind of a token.
#[derive(Debug, PartialEq, Eq, Clone, Copy, PartialOrd, Ord, Hash, Structural)]
pub enum TokenType {
    // Single char tokens
    LeftParen,
    RightParen,
    LeftBrace,
    RightBrace,
    Comma,
    Dot,
    Minus,
    Plus,
    Semicolon,
    Slash,
    Star,
    // One or two char tokens
    Bang,
    BangEqual,
    /// Assignment, `=`.
    Assign,
    /// Equality, `==`.
    Equal,
    Greater,
    GreaterEqual,
    Less,
    LessEqual,
    // Literals
    Identifier,
    String,
    Number,
    // Keywords
    And,
    Break,
    Class,
    Else,
    False,
    Fun,
    For,
    If,
    Nil,
    Or,
    Print,
    Return,
    Super,
    This,
    True,
    Var,
    While,
    Eof,
}

/// A literal as the source text gives it. A number keeps its decimal digits:
/// the value they denote is decoded when the literal is evaluated.
#[derive(Debug, PartialEq)]
pub enum Literal {
    /// The decimal text of a number: digits, optionally a dot and more digits.
    Number(String),
    /// The characters between the quotes of a string literal.
    Str(String),
    Bool(bool),
    Nil,
}

/// The mathematical content of a [`Literal`].
pub enum LiteralView {
    Number(Seq<char>),
    Str(Seq<char>),
    Bool(bool),
    Nil,
}

impl View for Literal {
    type V = LiteralView;

    open spec fn view(&self) -> LiteralView {
        match *self {
            Literal::Number(text) => LiteralView::Number(text@),
            Literal::Str(text) => LiteralView::Str(text@),
            Literal::Bool(b) => LiteralView::Bool(b),
            Literal::Nil => LiteralView::Nil,
        }
    }
}

impl Clone for Literal {
    fn clone(&self) -> (copy: Self)
        ensures
            copy == *self,
    {
        match self {
            Literal::Number(text) => Literal::Number(text.clone()),
            Literal::Str(text) => Literal::Str(text.clone()),
            Literal::Bool(b) => Literal::Bool(*b),
            Literal::Nil => Literal::Nil,
        }
    }
}

/// A token: its kind, the source text it was scanned from, the literal it
/// denotes (for numbers and strings) and its 1-based source line.
#[derive(Debug, PartialEq)]
pub struct Token {
    pub ttype: TokenType,
    pub lexeme: String,
    pub literal: Option<Literal>,
    pub line: usize,
}

/// The mathematical content of a [`Token`].
pub struct TokenView {
    pub kind: TokenType,
    pub lexeme: Seq<char>,
    pub literal: Option<LiteralView>,
    pub line: nat,
}

impl View for Token {
    type V = TokenView;

    open spec fn view(&self) -> TokenView {
        TokenView {
            kind: self.ttype,
            lexeme: self.lexeme@,
            literal: match self.literal {
                Some(l) => Some(l@),
                None => None,
            },
            line: self.line as nat,
        }
    }
}

/// The views of a sequence of tokens, in order.
pub open spec fn token_views(tokens: Seq<Token>) -> Seq<TokenView> {
    tokens.map_values(|t: Token| t@)
}

/// The end-of-input token of a source whose last line is `line`.
pub open spec fn eof_view(line: nat) -> TokenView {
    TokenView { kind: TokenType::Eof, lexeme: Seq::empty(), literal: None, line }
}

impl Clone for Token {
    fn clone(&self) -> (copy: Self)
        ensures
            copy == *self,
    {
        let literal = match &self.literal {
            Some(l) => Some(l.clone()),
            None => None,
        };
        Token { ttype: self.ttype, lexeme: self.lexeme.clone(), literal, line: self.line }
    }
}

impl Token {
    /// A token of the given kind, text, literal and line.
    pub fn new(ttype: TokenType, lexeme: String, literal: Option<Literal>, line: usize) -> (token:
        Self)
        ensures
            token.ttype == ttype,
            token.lexeme == lexeme,
            token.literal == literal,
            token.line == line,
    {
        Self { ttype, lexeme, literal, line }
    }

    /// Whether this token is of the given kind.
    pub fn is(&self, ttype: TokenType) -> (same: bool)
        ensures
            same == (self.ttype == ttype),
    {
        self.ttype == ttype
    }

    /// The end-of-input token for a source that ends on `line`.
    pub fn eof(line: usize) -> (token: Token)
        ensures
            token@ == eof_view(line as nat),
    {
        Token { ttype: TokenType::Eof, lexeme: String::new(), literal: None, line }
    }

    /// The kind of the token.
    pub fn token_type(&self) -> (ttype: TokenType)
        ensures
            ttype == self.ttype,
    {
        self.ttype
    }
}

/// Whether `tokens` is what a parser can work on: it ends with the
/// end-of-input token.
pub open spec fn well_ended(tokens: Seq<Token>) -> bool {
    tokens.len() > 0 && tokens.last().ttype == TokenType::Eof
}

} // verus!
