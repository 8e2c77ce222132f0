//! The errors that scanning, parsing and evaluation report.
use vstd::prelude::*;
use crate::tokens::{Token, TokenView};

verus! {

/// An error found in a program, with the place it was found at.
#[derive(Debug, PartialEq)]
pub enum LoxResult {
    /// The parser met a token it could not accept.
    ParseError { token: Token, message: String },
    /// Evaluation failed at the given token.
    RuntimeError { token: Token, message: String },
    /// An error known only by its line.
    LoxError { line: usize, message: String },
    /// The scanner could not make a token.
    LexError { line: usize, message: String },
    /// The interpreter itself failed.
    SystemError { message: String },
}

/// The mathematical content of a [`LoxResult`].
pub enum LoxResultView {
    ParseError { token: TokenView, message: Seq<char> },
    RuntimeError { token: TokenView, message: Seq<char> },
    LoxError { line: nat, message: Seq<char> },
    LexError { line: nat, message: Seq<char> },
    SystemError { message: Seq<char> },
}

impl View for LoxResult {
    type V = LoxResultView;

    open spec fn view(&self) -> LoxResultView {
        match *self {
            LoxResult::ParseError { token, message } => LoxResultView::ParseError {
                token: token@,
                message: message@,
            },
            LoxResult::RuntimeError { token, message } => LoxResultView::RuntimeError {
                token: token@,
                message: message@,
            },
            LoxResult::LoxError { line, message } => LoxResultView::LoxError {
                line: line as nat,
                message: message@,
            },
            LoxResult::LexError { line, message } => LoxResultView::LexError {
                line: line as nat,
                message: message@,
            },
            LoxResult::SystemError { message } => LoxResultView::SystemError { message: message@ },
        }
    }
}

/// The views of a sequence of errors, in order.
pub open spec fn error_views(errors: Seq<LoxResult>) -> Seq<LoxResultView> {
    errors.map_values(|e: LoxResult| e@)
}

impl Clone for LoxResult {
    fn clone(&self) -> (copy: Self)
        ensures
            copy == *self,
    {
        match self {
            LoxResult::ParseError { token, message } => LoxResult::ParseError {
                token: token.clone(),
                message: message.clone(),
            },
            LoxResult::RuntimeError { token, message } => LoxResult::RuntimeError {
                token: token.clone(),
                message: message.clone(),
            },
            LoxResult::LoxError { line, message } => LoxResult::LoxError {
                line: *line,
                message: message.clone(),
            },
            LoxResult::LexError { line, message } => LoxResult::LexError {
                line: *line,
                message: message.clone(),
            },
            LoxResult::SystemError { message } => LoxResult::SystemError {
                message: message.clone(),
            },
        }
    }
}

impl LoxResult {
    /// An error of the scanner on `line`.
    pub fn new_lex_error(line: usize, message: &str) -> (err: Self)
        ensures
            err@ == (LoxResultView::LexError { line: line as nat, message: message@ }),
    {
        Self::LexError { line, message: String::from_str(message) }
    }

    /// An error known only by its line.
    pub fn error(line: usize, message: &str) -> (err: Self)
        ensures
            err@ == (LoxResultView::LoxError { line: line as nat, message: message@ }),
    {
        Self::LoxError { line, message: String::from_str(message) }
    }

    /// A failure of the interpreter itself.
    pub fn new_system_error(message: &str) -> (err: Self)
        ensures
            err@ == (LoxResultView::SystemError { message: message@ }),
    {
        Self::SystemError { message: String::from_str(message) }
    }

    /// An error of the parser at `token`.
    pub fn parse_error(token: &Token, message: &str) -> (err: Self)
        ensures
            err@ == (LoxResultView::ParseError { token: token@, message: message@ }),
            err matches LoxResult::ParseError { token: t, .. } && t == *token,
    {
        Self::ParseError { token: token.clone(), message: String::from_str(message) }
    }

    /// An error of evaluation at `token`.
    pub fn new_runtime_error(token: Token, message: String) -> (err: Self)
        ensures
            err == (LoxResult::RuntimeError { token, message }),
    {
        Self::RuntimeError { token, message }
    }
}

/// The decimal digits of `n`.
pub open spec fn decimal(n: nat) -> Seq<char>
    decreases n,
{
    if n < 10 {
        seq![digit(n)]
    } else {
        decimal(n / 10).push(digit(n % 10))
    }
}

/// The digit for a number below ten.
pub open spec fn digit(n: nat) -> char {
    if n == 0 {
        '0'
    } else if n == 1 {
        '1'
    } else if n == 2 {
        '2'
    } else if n == 3 {
        '3'
    } else if n == 4 {
        '4'
    } else if n == 5 {
        '5'
    } else if n == 6 {
        '6'
    } else if n == 7 {
        '7'
    } else if n == 8 {
        '8'
    } else {
        '9'
    }
}

fn digit_char(n: usize) -> (c: char)
    requires
        n < 10,
    ensures
        c == digit(n as nat),
{
    if n == 0 {
        '0'
    } else if n == 1 {
        '1'
    } else if n == 2 {
        '2'
    } else if n == 3 {
        '3'
    } else if n == 4 {
        '4'
    } else if n == 5 {
        '5'
    } else if n == 6 {
        '6'
    } else if n == 7 {
        '7'
    } else if n == 8 {
        '8'
    } else {
        '9'
    }
}

/// Adds the decimal digits of `n` to `text`.
pub fn push_decimal(text: &mut String, n: usize)
    ensures
        final(text)@ == old(text)@ + decimal(n as nat),
    decreases n,
{
    if n >= 10 {
        push_decimal(text, n / 10);
    }
    text.push(digit_char(n % 10));
    proof {
        if n >= 10 {
            assert(final(text)@ =~= old(text)@ + decimal(n as nat));
        } else {
            assert(final(text)@ =~= old(text)@ + decimal(n as nat));
        }
    }
}

/// How an error is written for the user: its line, its kind, the text of the
/// token it was met at where it has one, and its message.
pub open spec fn rendered(error: LoxResultView) -> Seq<char> {
    match error {
        LoxResultView::ParseError { token, message } => "[line "@ + decimal(token.line)
            + "] ParseError: at '"@ + token.lexeme + "' "@ + message,
        LoxResultView::RuntimeError { token, message } => "[line "@ + decimal(token.line)
            + "] RuntimeError at '"@ + token.lexeme + "': "@ + message,
        LoxResultView::LoxError { line, message } => "[line "@ + decimal(line) + "] Error: "@
            + message,
        LoxResultView::LexError { line, message } => "[line "@ + decimal(line) + "] LexError: "@
            + message,
        LoxResultView::SystemError { message } => "SystemError: "@ + message,
    }
}

impl LoxResult {
    /// The error as it is written for the user.
    pub fn to_string(&self) -> (text: String)
        ensures
            text@ == rendered(self@),
    {
        match self {
            LoxResult::ParseError { token, message } => {
                let mut text = String::from_str("[line ");
                push_decimal(&mut text, token.line);
                text.append("] ParseError: at '");
                text.append(token.lexeme.as_str());
                text.append("' ");
                text.append(message.as_str());
                text
            },
            LoxResult::RuntimeError { token, message } => {
                let mut text = String::from_str("[line ");
                push_decimal(&mut text, token.line);
                text.append("] RuntimeError at '");
                text.append(token.lexeme.as_str());
                text.append("': ");
                text.append(message.as_str());
                text
            },
            LoxResult::LoxError { line, message } => {
                let mut text = String::from_str("[line ");
                push_decimal(&mut text, *line);
                text.append("] Error: ");
                text.append(message.as_str());
                text
            },
            LoxResult::LexError { line, message } => {
                let mut text = String::from_str("[line ");
                push_decimal(&mut text, *line);
                text.append("] LexError: ");
                text.append(message.as_str());
                text
            },
            LoxResult::SystemError { message } => {
                let mut text = String::from_str("SystemError: ");
                text.append(message.as_str());
                text
            },
        }
    }
}

} // verus!
