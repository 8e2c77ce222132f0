//! The scanner: source text to tokens.
//!
//! What the scanner yields is defined by [`scan_from`], a function of the
//! source text alone; [`Scanner::scan_tokens`] computes it.
use vstd::prelude::*;
use crate::error::{error_views, LoxResult, LoxResultView};
use crate::lexer::{follows, Lexer};
use crate::tokens::{
    eof_view, token_views, well_ended, Literal, LiteralView, Token, TokenType, TokenView,
};

verus! {

/// The ten digits.
pub open spec fn is_digit(c: char) -> bool {
    '0' <= c && c <= '9'
}

/// Letters of the ASCII alphabet and the underscore start an identifier.
pub open spec fn is_alpha(c: char) -> bool {
    ('a' <= c && c <= 'z') || ('A' <= c && c <= 'Z') || c == '_'
}

/// What an identifier is made of behind its first character.
pub open spec fn is_alpha_numeric(c: char) -> bool {
    is_alpha(c) || is_digit(c)
}

/// The index of the first character at or after `pos` that is not a digit.
pub open spec fn digits_end(src: Seq<char>, pos: int) -> int
    decreases src.len() - pos,
{
    if 0 <= pos < src.len() && is_digit(src[pos]) {
        digits_end(src, pos + 1)
    } else {
        pos
    }
}

/// The index of the first character at or after `pos` that cannot continue
/// an identifier.
pub open spec fn word_end(src: Seq<char>, pos: int) -> int
    decreases src.len() - pos,
{
    if 0 <= pos < src.len() && is_alpha_numeric(src[pos]) {
        word_end(src, pos + 1)
    } else {
        pos
    }
}

/// The index of the first line feed at or after `pos`, or the end of the text.
pub open spec fn line_end(src: Seq<char>, pos: int) -> int
    decreases src.len() - pos,
{
    if 0 <= pos < src.len() && src[pos] != '\n' {
        line_end(src, pos + 1)
    } else {
        pos
    }
}

/// Where a number that starts at `start` ends: its digits, and a fraction
/// only if a digit follows the dot.
pub open spec fn number_end(src: Seq<char>, start: int) -> int {
    let whole = digits_end(src, start);
    if follows(src, whole, '.') && whole + 1 < src.len() && is_digit(src[whole + 1]) {
        digits_end(src, whole + 1)
    } else {
        whole
    }
}

/// Where a stretch of text that may run over several lines ends.
pub struct Span {
    /// The index after the last character of the stretch.
    pub end: int,
    /// The line that its end lies on.
    pub line: nat,
    /// Whether its closing delimiter was found.
    pub closed: bool,
}

/// The rest of a string literal whose opening quote lies before `pos`.
pub open spec fn string_end(src: Seq<char>, pos: int, line: nat) -> Span
    decreases src.len() - pos,
{
    if pos < 0 || pos >= src.len() {
        Span { end: pos, line, closed: false }
    } else if src[pos] == '"' {
        Span { end: pos + 1, line, closed: true }
    } else {
        string_end(
            src,
            pos + 1,
            if src[pos] == '\n' {
                line + 1
            } else {
                line
            },
        )
    }
}

/// The rest of a block comment, `depth` levels of which are open at `pos`.
/// An inner `/*` opens one more level and each `*/` closes one.
pub open spec fn comment_end(src: Seq<char>, pos: int, depth: nat, line: nat) -> Span
    decreases src.len() - pos,
{
    if depth == 0 {
        Span { end: pos, line, closed: true }
    } else if pos < 0 || pos >= src.len() {
        Span { end: pos, line, closed: false }
    } else if src[pos] == '*' && follows(src, pos + 1, '/') {
        comment_end(src, pos + 2, (depth - 1) as nat, line)
    } else if src[pos] == '/' && follows(src, pos + 1, '*') {
        comment_end(src, pos + 2, depth + 1, line)
    } else {
        comment_end(
            src,
            pos + 1,
            depth,
            if src[pos] == '\n' {
                line + 1
            } else {
                line
            },
        )
    }
}

/// The token kind of a reserved word, if `word` is one.
pub open spec fn keyword(word: Seq<char>) -> Option<TokenType> {
    if word == "and"@ {
        Some(TokenType::And)
    } else if word == "break"@ {
        Some(TokenType::Break)
    } else if word == "class"@ {
        Some(TokenType::Class)
    } else if word == "else"@ {
        Some(TokenType::Else)
    } else if word == "false"@ {
        Some(TokenType::False)
    } else if word == "for"@ {
        Some(TokenType::For)
    } else if word == "fun"@ {
        Some(TokenType::Fun)
    } else if word == "if"@ {
        Some(TokenType::If)
    } else if word == "nil"@ {
        Some(TokenType::Nil)
    } else if word == "or"@ {
        Some(TokenType::Or)
    } else if word == "print"@ {
        Some(TokenType::Print)
    } else if word == "return"@ {
        Some(TokenType::Return)
    } else if word == "super"@ {
        Some(TokenType::Super)
    } else if word == "this"@ {
        Some(TokenType::This)
    } else if word == "true"@ {
        Some(TokenType::True)
    } else if word == "var"@ {
        Some(TokenType::Var)
    } else if word == "while"@ {
        Some(TokenType::While)
    } else {
        None
    }
}

/// The token kind of a character that is a token by itself.
pub open spec fn punctuation(c: char) -> Option<TokenType> {
    if c == '(' {
        Some(TokenType::LeftParen)
    } else if c == ')' {
        Some(TokenType::RightParen)
    } else if c == '{' {
        Some(TokenType::LeftBrace)
    } else if c == '}' {
        Some(TokenType::RightBrace)
    } else if c == ',' {
        Some(TokenType::Comma)
    } else if c == '.' {
        Some(TokenType::Dot)
    } else if c == '-' {
        Some(TokenType::Minus)
    } else if c == '+' {
        Some(TokenType::Plus)
    } else if c == ';' {
        Some(TokenType::Semicolon)
    } else if c == '*' {
        Some(TokenType::Star)
    } else {
        None
    }
}

/// For a character that makes one operator alone and another with `=` behind
/// it: the kind of the pair if `paired`, else the kind of the character alone.
pub open spec fn operator(c: char, paired: bool) -> Option<TokenType> {
    if c == '!' {
        Some(if paired { TokenType::BangEqual } else { TokenType::Bang })
    } else if c == '=' {
        Some(if paired { TokenType::Equal } else { TokenType::Assign })
    } else if c == '<' {
        Some(if paired { TokenType::LessEqual } else { TokenType::Less })
    } else if c == '>' {
        Some(if paired { TokenType::GreaterEqual } else { TokenType::Greater })
    } else {
        None
    }
}

/// What scanning one lexeme yields.
pub struct Lexed {
    /// The index after the lexeme.
    pub next: int,
    /// The line after the lexeme.
    pub line: nat,
    /// The token made, if the lexeme makes one.
    pub token: Option<TokenView>,
    /// The error found, if there is one.
    pub error: Option<LoxResultView>,
}

/// A token without a literal, made of the text from `start` to `end`.
pub open spec fn plain(src: Seq<char>, start: int, end: int, line: nat, kind: TokenType) -> Lexed {
    Lexed {
        next: end,
        line,
        token: Some(TokenView { kind, lexeme: src.subrange(start, end), literal: None, line }),
        error: None,
    }
}

/// Text that makes no token.
pub open spec fn skipped(end: int, line: nat) -> Lexed {
    Lexed { next: end, line, token: None, error: None }
}

/// Text that cannot be scanned.
pub open spec fn failed(end: int, line: nat, message: Seq<char>) -> Lexed {
    Lexed {
        next: end,
        line,
        token: None,
        error: Some(LoxResultView::LexError { line, message }),
    }
}

/// The message for a character that starts no lexeme.
pub open spec fn unexpected_character(c: char) -> Seq<char> {
    "Unexpected character '"@.push(c).push('\'')
}

/// The lexeme that starts at index `start` of `src`, on line `line`.
pub open spec fn lex_at(src: Seq<char>, start: int, line: nat) -> Lexed
    recommends
        0 <= start < src.len(),
{
    let c = src[start];
    if punctuation(c) is Some {
        plain(src, start, start + 1, line, punctuation(c)->0)
    } else if operator(c, false) is Some {
        if follows(src, start + 1, '=') {
            plain(src, start, start + 2, line, operator(c, true)->0)
        } else {
            plain(src, start, start + 1, line, operator(c, false)->0)
        }
    } else if c == '/' {
        if follows(src, start + 1, '/') {
            skipped(line_end(src, start + 2), line)
        } else if follows(src, start + 1, '*') {
            let rest = comment_end(src, start + 2, 1, line);
            if rest.closed {
                skipped(rest.end, rest.line)
            } else {
                failed(rest.end, rest.line, "Unterminated block comment."@)
            }
        } else {
            plain(src, start, start + 1, line, TokenType::Slash)
        }
    } else if c == ' ' || c == '\r' || c == '\t' {
        skipped(start + 1, line)
    } else if c == '\n' {
        skipped(start + 1, line + 1)
    } else if c == '"' {
        let rest = string_end(src, start + 1, line);
        if rest.closed {
            Lexed {
                next: rest.end,
                line: rest.line,
                token: Some(
                    TokenView {
                        kind: TokenType::String,
                        lexeme: src.subrange(start, rest.end),
                        literal: Some(LiteralView::Str(src.subrange(start + 1, rest.end - 1))),
                        line: rest.line,
                    },
                ),
                error: None,
            }
        } else {
            failed(rest.end, rest.line, "Unterminated String"@)
        }
    } else if is_digit(c) {
        let end = number_end(src, start);
        Lexed {
            next: end,
            line,
            token: Some(
                TokenView {
                    kind: TokenType::Number,
                    lexeme: src.subrange(start, end),
                    literal: Some(LiteralView::Number(src.subrange(start, end))),
                    line,
                },
            ),
            error: None,
        }
    } else if is_alpha(c) {
        let end = word_end(src, start);
        plain(
            src,
            start,
            end,
            line,
            match keyword(src.subrange(start, end)) {
                Some(kind) => kind,
                None => TokenType::Identifier,
            },
        )
    } else {
        failed(start + 1, line, unexpected_character(c))
    }
}

/// The tokens and errors of a text, and the line it ends on.
pub struct Scanned {
    pub tokens: Seq<TokenView>,
    pub errors: Seq<LoxResultView>,
    pub line: nat,
}

/// The item alone, or nothing.
pub open spec fn as_seq<T>(item: Option<T>) -> Seq<T> {
    match item {
        Some(t) => seq![t],
        None => Seq::empty(),
    }
}

/// The tokens and errors of `src` from index `pos` on, where `pos` lies on
/// line `line`: those of each lexeme in turn, then the end-of-input token on
/// the last line reached.
pub open spec fn scan_from(src: Seq<char>, pos: int, line: nat) -> Scanned
    decreases src.len() - pos,
{
    if pos < 0 || pos >= src.len() {
        Scanned { tokens: seq![eof_view(line)], errors: Seq::empty(), line }
    } else {
        let first = lex_at(src, pos, line);
        proof {
            lemma_lexeme_bounds(src, pos, line);
        }
        let rest = scan_from(src, first.next, first.line);
        Scanned {
            tokens: as_seq(first.token) + rest.tokens,
            errors: as_seq(first.error) + rest.errors,
            line: rest.line,
        }
    }
}

/// The tokens and errors of a whole source text.
pub open spec fn scan(src: Seq<char>) -> Scanned {
    scan_from(src, 0, 1)
}

/// A run of digits ends within the text, before a character that is no digit.
pub proof fn lemma_digits_end_bounds(src: Seq<char>, pos: int)
    requires
        0 <= pos <= src.len(),
    ensures
        pos <= digits_end(src, pos) <= src.len(),
        digits_end(src, pos) < src.len() ==> !is_digit(src[digits_end(src, pos)]),
    decreases src.len() - pos,
{
    if pos < src.len() && is_digit(src[pos]) {
        lemma_digits_end_bounds(src, pos + 1);
    }
}

/// An identifier ends within the text.
pub proof fn lemma_word_end_bounds(src: Seq<char>, pos: int)
    requires
        0 <= pos <= src.len(),
    ensures
        pos <= word_end(src, pos) <= src.len(),
    decreases src.len() - pos,
{
    if pos < src.len() && is_alpha_numeric(src[pos]) {
        lemma_word_end_bounds(src, pos + 1);
    }
}

/// A line ends within the text.
pub proof fn lemma_line_end_bounds(src: Seq<char>, pos: int)
    requires
        0 <= pos <= src.len(),
    ensures
        pos <= line_end(src, pos) <= src.len(),
    decreases src.len() - pos,
{
    if pos < src.len() && src[pos] != '\n' {
        lemma_line_end_bounds(src, pos + 1);
    }
}

/// A string ends within the text, and holds no more line feeds than
/// characters.
pub proof fn lemma_string_end_bounds(src: Seq<char>, pos: int, line: nat)
    requires
        0 <= pos <= src.len(),
    ensures
        pos <= string_end(src, pos, line).end <= src.len(),
        string_end(src, pos, line).closed ==> pos < string_end(src, pos, line).end,
        line <= string_end(src, pos, line).line <= line + (string_end(src, pos, line).end - pos),
    decreases src.len() - pos,
{
    if pos < src.len() && src[pos] != '"' {
        lemma_string_end_bounds(
            src,
            pos + 1,
            if src[pos] == '\n' {
                line + 1
            } else {
                line
            },
        );
    }
}

/// A block comment ends within the text, and holds no more line feeds than
/// characters.
pub proof fn lemma_comment_end_bounds(src: Seq<char>, pos: int, depth: nat, line: nat)
    requires
        0 <= pos <= src.len(),
    ensures
        pos <= comment_end(src, pos, depth, line).end <= src.len(),
        line <= comment_end(src, pos, depth, line).line <= line + (comment_end(
            src,
            pos,
            depth,
            line,
        ).end - pos),
    decreases src.len() - pos,
{
    if depth == 0 || pos >= src.len() {
    } else if src[pos] == '*' && follows(src, pos + 1, '/') {
        lemma_comment_end_bounds(src, pos + 2, (depth - 1) as nat, line);
    } else if src[pos] == '/' && follows(src, pos + 1, '*') {
        lemma_comment_end_bounds(src, pos + 2, depth + 1, line);
    } else {
        lemma_comment_end_bounds(
            src,
            pos + 1,
            depth,
            if src[pos] == '\n' {
                line + 1
            } else {
                line
            },
        );
    }
}

/// Every lexeme holds at least one character and ends within the text, and
/// the line grows by no more than the characters read.
pub proof fn lemma_lexeme_bounds(src: Seq<char>, pos: int, line: nat)
    requires
        0 <= pos < src.len(),
    ensures
        pos < lex_at(src, pos, line).next <= src.len(),
        line <= lex_at(src, pos, line).line <= line + (lex_at(src, pos, line).next - pos),
{
    let c = src[pos];
    lemma_line_end_bounds(src, pos + 1);
    if pos + 2 <= src.len() {
        lemma_line_end_bounds(src, pos + 2);
        lemma_comment_end_bounds(src, pos + 2, 1, line);
    }
    lemma_string_end_bounds(src, pos + 1, line);
    lemma_digits_end_bounds(src, pos);
    let whole = digits_end(src, pos);
    if whole + 1 <= src.len() {
        lemma_digits_end_bounds(src, whole + 1);
    }
    lemma_word_end_bounds(src, pos);
    if is_digit(c) {
        assert(digits_end(src, pos) == digits_end(src, pos + 1));
        lemma_digits_end_bounds(src, pos + 1);
    }
    if is_alpha(c) {
        assert(word_end(src, pos) == word_end(src, pos + 1));
        lemma_word_end_bounds(src, pos + 1);
    }
}

/// Whether the next character, if there is one, is a digit.
fn is_digit_next(ch: Option<char>) -> (digit: bool)
    ensures
        digit == (ch is Some && is_digit(ch->0)),
{
    match ch {
        Some(c) => c >= '0' && c <= '9',
        None => false,
    }
}

/// Whether the next character, if there is one, can continue an identifier.
fn is_alpha_numeric_next(ch: Option<char>) -> (word: bool)
    ensures
        word == (ch is Some && is_alpha_numeric(ch->0)),
{
    match ch {
        Some(c) => is_alpha_char(c) || (c >= '0' && c <= '9'),
        None => false,
    }
}

fn is_alpha_char(c: char) -> (alpha: bool)
    ensures
        alpha == is_alpha(c),
{
    (c >= 'a' && c <= 'z') || (c >= 'A' && c <= 'Z') || c == '_'
}

/// Whether the next character, if there is one, is `c`.
fn is_char(ch: Option<char>, c: char) -> (same: bool)
    ensures
        same == (ch == Some(c)),
{
    match ch {
        Some(next) => next == c,
        None => false,
    }
}

/// Whether there is a next character and it differs from `stop`.
fn is_before(ch: Option<char>, stop: char) -> (before: bool)
    ensures
        before == (ch is Some && ch->0 != stop),
{
    match ch {
        Some(c) => c != stop,
        None => false,
    }
}

fn punctuation_kind(c: char) -> (kind: Option<TokenType>)
    ensures
        kind == punctuation(c),
{
    if c == '(' {
        Some(TokenType::LeftParen)
    } else if c == ')' {
        Some(TokenType::RightParen)
    } else if c == '{' {
        Some(TokenType::LeftBrace)
    } else if c == '}' {
        Some(TokenType::RightBrace)
    } else if c == ',' {
        Some(TokenType::Comma)
    } else if c == '.' {
        Some(TokenType::Dot)
    } else if c == '-' {
        Some(TokenType::Minus)
    } else if c == '+' {
        Some(TokenType::Plus)
    } else if c == ';' {
        Some(TokenType::Semicolon)
    } else if c == '*' {
        Some(TokenType::Star)
    } else {
        None
    }
}

fn operator_kind(c: char, paired: bool) -> (kind: Option<TokenType>)
    ensures
        kind == operator(c, paired),
{
    if c == '!' {
        Some(if paired { TokenType::BangEqual } else { TokenType::Bang })
    } else if c == '=' {
        Some(if paired { TokenType::Equal } else { TokenType::Assign })
    } else if c == '<' {
        Some(if paired { TokenType::LessEqual } else { TokenType::Less })
    } else if c == '>' {
        Some(if paired { TokenType::GreaterEqual } else { TokenType::Greater })
    } else {
        None
    }
}

/// The tokens of a text end with the end-of-input token, which stands on
/// the last line reached, and the text has no other token of that kind.
pub proof fn law_scan_ends_with_eof(src: Seq<char>, pos: int, line: nat)
    requires
        0 <= pos <= src.len(),
    ensures
        ({
            let scanned = scan_from(src, pos, line);
            &&& scanned.tokens.len() > 0
            &&& scanned.tokens.last() == eof_view(scanned.line)
            &&& forall|i: int|
                0 <= i < scanned.tokens.len() - 1 ==> (#[trigger] scanned.tokens[i]).kind
                    != TokenType::Eof
            &&& line <= scanned.line
        }),
    decreases src.len() - pos,
{
    if pos < src.len() {
        let first = lex_at(src, pos, line);
        lemma_lexeme_bounds(src, pos, line);
        law_scan_ends_with_eof(src, first.next, first.line);
        let rest = scan_from(src, first.next, first.line);
        let scanned = scan_from(src, pos, line);
        assert(scanned.tokens =~= as_seq(first.token) + rest.tokens);
        if first.token is Some {
            assert(first.token->0.kind != TokenType::Eof);
            assert forall|i: int| 0 <= i < scanned.tokens.len() - 1 implies (
            #[trigger] scanned.tokens[i]).kind != TokenType::Eof by {
                if i > 0 {
                    assert(scanned.tokens[i] == rest.tokens[i - 1]);
                }
            }
        }
    }
}

/// A scanner over one source text. It keeps the tokens made so far and every
/// error met so far.
pub struct Scanner {
    cursor: Lexer,
    tokens: Vec<Token>,
    errors: Vec<LoxResult>,
    /// The index at which the lexeme being scanned starts.
    start: usize,
    line: usize,
}

/// The state of a [`Scanner`].
pub struct ScannerView {
    pub source: Seq<char>,
    /// The index of the next character to scan.
    pub position: int,
    /// The line that `position` lies on.
    pub line: nat,
    pub tokens: Seq<Token>,
    pub errors: Seq<LoxResult>,
}

impl View for Scanner {
    type V = ScannerView;

    closed spec fn view(&self) -> ScannerView {
        ScannerView {
            source: self.cursor.text(),
            position: self.cursor.position(),
            line: self.line as nat,
            tokens: self.tokens@,
            errors: self.errors@,
        }
    }
}

impl Scanner {
    /// The position lies within the source, and the line counts no more line
    /// feeds than characters were read.
    pub closed spec fn wf(&self) -> bool {
        &&& self.cursor.wf()
        &&& self.cursor.text().len() < usize::MAX
        &&& self.cursor.position() <= self.cursor.text().len()
        &&& 1 <= self.line <= self.cursor.position() + 1
    }

    /// A scanner at the start of `source`, on line 1.
    pub fn new(source: String) -> (scanner: Self)
        requires
            source@.len() < usize::MAX,
        ensures
            scanner.wf(),
            scanner@.source == source@,
            scanner@.position == 0,
            scanner@.line == 1,
            scanner@.tokens.len() == 0,
            scanner@.errors.len() == 0,
    {
        Self {
            cursor: Lexer::new(source),
            tokens: Vec::new(),
            errors: Vec::new(),
            start: 0,
            line: 1,
        }
    }

    /// The tokens made so far.
    pub fn tokens(&self) -> (tokens: &Vec<Token>)
        ensures
            tokens@ == self@.tokens,
    {
        &self.tokens
    }

    /// Every error met so far, in the order of the source.
    pub fn errors(&self) -> (errors: &Vec<LoxResult>)
        ensures
            errors@ == self@.errors,
    {
        &self.errors
    }

    /// Scans the rest of the source. The tokens of the rest are added to the
    /// tokens, ending with the end-of-input token, and its errors to the
    /// errors. The scan fails with the last of these errors if there is one.
    pub fn scan_tokens(&mut self) -> (result: Result<&Vec<Token>, LoxResult>)
        requires
            old(self).wf(),
        ensures
            final(self).wf(),
            final(self)@.source == old(self)@.source,
            final(self)@.position == old(self)@.source.len(),
            well_ended(final(self)@.tokens),
            ({
                let rest = scan_from(old(self)@.source, old(self)@.position, old(self)@.line);
                &&& token_views(final(self)@.tokens) == token_views(old(self)@.tokens)
                    + rest.tokens
                &&& error_views(final(self)@.errors) == error_views(old(self)@.errors)
                    + rest.errors
                &&& final(self)@.line == rest.line
                &&& match result {
                    Ok(tokens) => rest.errors.len() == 0 && tokens@ == final(self)@.tokens,
                    Err(e) => rest.errors.len() > 0 && e@ == rest.errors.last(),
                }
            }),
    {
        let mut had_error: Option<LoxResult> = None;
        let ghost src = self.cursor.text();
        let ghost all = scan_from(src, self.cursor.position(), self.line as nat);
        let ghost tokens0 = token_views(self.tokens@);
        let ghost errors0 = error_views(self.errors@);
        assert(tokens0 + all.tokens =~= token_views(self.tokens@) + all.tokens);

        while !self.is_at_end()
            invariant
                self.wf(),
                self.cursor.text() == src,
                ({
                    let rest = scan_from(src, self.cursor.position(), self.line as nat);
                    &&& token_views(self.tokens@) + rest.tokens == tokens0 + all.tokens
                    &&& error_views(self.errors@) + rest.errors == errors0 + all.errors
                    &&& rest.line == all.line
                }),
                error_views(self.errors@).len() >= errors0.len(),
                match had_error {
                    None => error_views(self.errors@).len() == errors0.len(),
                    Some(e) => error_views(self.errors@).len() > errors0.len() && e@
                        == error_views(self.errors@).last(),
                },
            decreases src.len() - self.cursor.position(),
        {
            let ghost before_tokens = token_views(self.tokens@);
            let ghost before_errors = error_views(self.errors@);
            let ghost first = lex_at(src, self.cursor.position(), self.line as nat);
            let ghost rest = scan_from(src, self.cursor.position(), self.line as nat);
            proof {
                lemma_lexeme_bounds(src, self.cursor.position(), self.line as nat);
            }
            match self.scan_token() {
                Ok(_) => {
                    assert(error_views(self.errors@) + as_seq(first.error) =~= before_errors);
                },
                Err(x) => {
                    self.errors.push(x.clone());
                    assert(error_views(self.errors@) =~= before_errors.push(x@));
                    assert(before_errors.push(x@) =~= before_errors + as_seq(first.error));
                    had_error = Some(x);
                },
            };
            proof {
                let after = scan_from(src, first.next, first.line);
                assert(rest.tokens == as_seq(first.token) + after.tokens);
                assert(token_views(self.tokens@) + after.tokens =~= before_tokens + rest.tokens);
                assert(error_views(self.errors@) + after.errors =~= before_errors + rest.errors);
            }
        }

        let ghost before_tokens = token_views(self.tokens@);
        self.tokens.push(Token::eof(self.line));
        proof {
            assert(token_views(self.tokens@) =~= before_tokens.push(eof_view(self.line as nat)));
            let rest = scan_from(src, self.cursor.position(), self.line as nat);
            assert(rest.tokens =~= seq![eof_view(self.line as nat)]);
            assert(token_views(self.tokens@) =~= tokens0 + all.tokens);
            assert(error_views(self.errors@) =~= errors0 + all.errors);
            assert(error_views(self.errors@).len() == errors0.len() + all.errors.len());
        }

        // If an error occurred, return the last one
        if let Some(e) = had_error {
            proof {
                assert(error_views(self.errors@).last() == all.errors.last());
            }
            Err(e)
        } else {
            Ok(&self.tokens)
        }
    }

    /// Scans the lexeme that starts at the position of the scanner: a token
    /// is added if the lexeme makes one, and the error is returned if it
    /// cannot be scanned.
    pub fn scan_token(&mut self) -> (result: Result<(), LoxResult>)
        requires
            old(self).wf(),
            old(self)@.position < old(self)@.source.len(),
        ensures
            final(self).wf(),
            final(self)@.source == old(self)@.source,
            final(self)@.errors == old(self)@.errors,
            ({
                let lexed = lex_at(old(self)@.source, old(self)@.position, old(self)@.line);
                &&& final(self)@.position == lexed.next
                &&& final(self)@.line == lexed.line
                &&& token_views(final(self)@.tokens) == token_views(old(self)@.tokens) + as_seq(
                    lexed.token,
                )
                &&& match result {
                    Ok(_) => lexed.error is None,
                    Err(e) => lexed.error == Some(e@),
                }
            }),
    {
        self.start = self.cursor.offset();
        let ghost first = self.cursor.position();
        let ghost src = self.cursor.text();
        let ghost before = token_views(self.tokens@);
        let c = self.advance();

        if let Some(kind) = punctuation_kind(c) {
            self.add_token(kind);
        } else if let Some(alone) = operator_kind(c, false) {
            let tok = if self.is_match('=') {
                match operator_kind(c, true) {
                    Some(paired) => paired,
                    None => alone,
                }
            } else {
                alone
            };
            self.add_token(tok);
        } else if c == '/' {
            if self.is_match('/') {
                // A comment goes until the end of the line. So we ignore until then
                while is_before(self.peek(), '\n')
                    invariant
                        self.wf(),
                        self.cursor.text() == src,
                        self.line == old(self).line,
                        self.tokens@ == old(self).tokens@,
                        self.errors@ == old(self).errors@,
                        first + 2 <= self.cursor.position(),
                        line_end(src, self.cursor.position()) == line_end(
                            src,
                            first + 2,
                        ),
                    decreases src.len() - self.cursor.position(),
                {
                    self.advance();
                }
                assert(before + as_seq(None::<TokenView>) =~= before);
            } else if self.is_match('*') {
                // Block comment start
                let closed = self.scan_comment();
                assert(before + as_seq(None::<TokenView>) =~= before);
                match closed {
                    Ok(_) => {},
                    Err(e) => {
                        return Err(e);
                    },
                }
            } else {
                self.add_token(TokenType::Slash);
            }
        } else if c == ' ' || c == '\r' || c == '\t' {
            // Ignore whitespace
            assert(before + as_seq(None::<TokenView>) =~= before);
        } else if c == '\n' {
            self.line += 1;
            assert(before + as_seq(None::<TokenView>) =~= before);
        } else if c == '"' {
            let scanned = self.string();
            match scanned {
                Ok(_) => {},
                Err(e) => {
                    assert(before + as_seq(None::<TokenView>) =~= before);
                    return Err(e);
                },
            }
        } else if c >= '0' && c <= '9' {
            self.number();
        } else if is_alpha_char(c) {
            self.identifier();
        } else {
            let mut message = String::from_str("Unexpected character '");
            message.push(c);
            message.push('\'');
            assert(before + as_seq(None::<TokenView>) =~= before);
            return Err(LoxResult::LexError { line: self.line, message });
        }
        Ok(())
    }

    /// Scans the rest of a block comment whose opening `/*` has been read.
    /// Block comments nest.
    fn scan_comment(&mut self) -> (result: Result<(), LoxResult>)
        requires
            old(self).wf(),
            2 <= old(self).cursor.position(),
            old(self).line <= old(self).cursor.position() - 1,
        ensures
            final(self).wf(),
            final(self).cursor.text() == old(self).cursor.text(),
            final(self).tokens@ == old(self).tokens@,
            final(self).errors@ == old(self).errors@,
            final(self).start == old(self).start,
            ({
                let rest = comment_end(
                    old(self).cursor.text(),
                    old(self).cursor.position(),
                    1,
                    old(self).line as nat,
                );
                &&& final(self).cursor.position() == rest.end
                &&& final(self).line == rest.line
                &&& match result {
                    Ok(_) => rest.closed,
                    Err(e) => !rest.closed && e@ == (LoxResultView::LexError {
                        line: rest.line,
                        message: "Unterminated block comment."@,
                    }),
                }
            }),
    {
        let ghost src = self.cursor.text();
        let ghost whole = comment_end(src, self.cursor.position(), 1, self.line as nat);
        let mut depth: usize = 1;
        while depth > 0 && !self.is_at_end()
            invariant
                self.wf(),
                self.cursor.text() == src,
                self.tokens@ == old(self).tokens@,
                self.errors@ == old(self).errors@,
                self.start == old(self).start,
                self.line <= self.cursor.position() - 1,
                depth <= self.cursor.position(),
                comment_end(src, self.cursor.position(), depth as nat, self.line as nat) == whole,
            decreases src.len() - self.cursor.position(),
        {
            let c = self.advance();
            if c == '*' && self.is_match('/') {
                // The end of a comment
                depth -= 1;
            } else if c == '/' && self.is_match('*') {
                // The beginning of a new, nested comment
                depth += 1;
            } else if c == '\n' {
                // Handle our newlines
                self.line += 1;
            }
        }
        if depth > 0 {
            Err(LoxResult::new_lex_error(self.line, "Unterminated block comment."))
        } else {
            Ok(())
        }
    }

    /// Scans the rest of an identifier or reserved word whose first character
    /// has been read.
    fn identifier(&mut self)
        requires
            old(self).wf(),
            old(self).start + 1 == old(self).cursor.position(),
            is_alpha(old(self).cursor.text()[old(self).start as int]),
        ensures
            final(self).wf(),
            final(self).cursor.text() == old(self).cursor.text(),
            final(self).errors@ == old(self).errors@,
            final(self).line == old(self).line,
            ({
                let lexed = lex_at(
                    old(self).cursor.text(),
                    old(self).start as int,
                    old(self).line as nat,
                );
                &&& final(self).cursor.position() == lexed.next
                &&& token_views(final(self).tokens@) == token_views(old(self).tokens@) + as_seq(
                    lexed.token,
                )
            }),
    {
        let ghost src = self.cursor.text();
        let ghost before = token_views(self.tokens@);
        while is_alpha_numeric_next(self.peek())
            invariant
                self.wf(),
                self.cursor.text() == src,
                self.line == old(self).line,
                self.start == old(self).start,
                self.tokens@ == old(self).tokens@,
                self.errors@ == old(self).errors@,
                self.start < self.cursor.position(),
                word_end(src, self.cursor.position()) == word_end(src, self.start as int),
            decreases src.len() - self.cursor.position(),
        {
            self.advance();
        }
        let ttype = match self.keyword_kind() {
            Some(kind) => kind,
            None => TokenType::Identifier,
        };
        self.add_token(ttype);
        proof {
            let lexed = lex_at(src, old(self).start as int, old(self).line as nat);
            assert(punctuation(src[old(self).start as int]) is None);
            assert(operator(src[old(self).start as int], false) is None);
            assert(token_views(self.tokens@) =~= before + as_seq(lexed.token));
        }
    }

    /// The kind of the reserved word that the lexeme spells, if it spells one.
    fn keyword_kind(&self) -> (kind: Option<TokenType>)
        requires
            self.wf(),
            self.start <= self.cursor.position(),
        ensures
            kind == keyword(
                self.cursor.text().subrange(self.start as int, self.cursor.position()),
            ),
    {
        let from: usize = self.start;
        let to: usize = self.cursor.offset();
        if self.cursor.spells(from, to, "and") {
            Some(TokenType::And)
        } else if self.cursor.spells(from, to, "break") {
            Some(TokenType::Break)
        } else if self.cursor.spells(from, to, "class") {
            Some(TokenType::Class)
        } else if self.cursor.spells(from, to, "else") {
            Some(TokenType::Else)
        } else if self.cursor.spells(from, to, "false") {
            Some(TokenType::False)
        } else if self.cursor.spells(from, to, "for") {
            Some(TokenType::For)
        } else if self.cursor.spells(from, to, "fun") {
            Some(TokenType::Fun)
        } else if self.cursor.spells(from, to, "if") {
            Some(TokenType::If)
        } else if self.cursor.spells(from, to, "nil") {
            Some(TokenType::Nil)
        } else if self.cursor.spells(from, to, "or") {
            Some(TokenType::Or)
        } else if self.cursor.spells(from, to, "print") {
            Some(TokenType::Print)
        } else if self.cursor.spells(from, to, "return") {
            Some(TokenType::Return)
        } else if self.cursor.spells(from, to, "super") {
            Some(TokenType::Super)
        } else if self.cursor.spells(from, to, "this") {
            Some(TokenType::This)
        } else if self.cursor.spells(from, to, "true") {
            Some(TokenType::True)
        } else if self.cursor.spells(from, to, "var") {
            Some(TokenType::Var)
        } else if self.cursor.spells(from, to, "while") {
            Some(TokenType::While)
        } else {
            None
        }
    }

    /// Scans the rest of a number whose first digit has been read.
    fn number(&mut self)
        requires
            old(self).wf(),
            old(self).start + 1 == old(self).cursor.position(),
            is_digit(old(self).cursor.text()[old(self).start as int]),
        ensures
            final(self).wf(),
            final(self).cursor.text() == old(self).cursor.text(),
            final(self).errors@ == old(self).errors@,
            final(self).line == old(self).line,
            ({
                let lexed = lex_at(
                    old(self).cursor.text(),
                    old(self).start as int,
                    old(self).line as nat,
                );
                &&& final(self).cursor.position() == lexed.next
                &&& token_views(final(self).tokens@) == token_views(old(self).tokens@) + as_seq(
                    lexed.token,
                )
            }),
    {
        let ghost src = self.cursor.text();
        let ghost before = token_views(self.tokens@);
        // Consume all integer digits
        while is_digit_next(self.peek())
            invariant
                self.wf(),
                self.cursor.text() == src,
                self.line == old(self).line,
                self.start == old(self).start,
                self.tokens@ == old(self).tokens@,
                self.errors@ == old(self).errors@,
                self.start < self.cursor.position(),
                digits_end(src, self.cursor.position()) == digits_end(src, self.start as int),
            decreases src.len() - self.cursor.position(),
        {
            self.advance();
        }
        let ghost whole = self.cursor.position();
        assert(whole == digits_end(src, self.start as int));

        // If a fractional part is present, and the next char is a digit, consume them.
        if is_char(self.peek(), '.') && is_digit_next(self.peek_next()) {
            self.advance();

            while is_digit_next(self.peek())
                invariant
                    self.wf(),
                    self.cursor.text() == src,
                    self.line == old(self).line,
                    self.start == old(self).start,
                    self.tokens@ == old(self).tokens@,
                    self.errors@ == old(self).errors@,
                    self.start < self.cursor.position(),
                    digits_end(src, self.cursor.position()) == digits_end(src, whole + 1),
                decreases src.len() - self.cursor.position(),
            {
                self.advance();
            }
        }
        assert(self.cursor.position() == number_end(src, self.start as int));

        // Keep the digits: the number they denote is decoded on evaluation.
        let value = self.cursor.slice(self.start, self.cursor.offset());
        self.add_token_object(TokenType::Number, Some(Literal::Number(value)));
        proof {
            let lexed = lex_at(src, old(self).start as int, old(self).line as nat);
            assert(punctuation(src[old(self).start as int]) is None);
            assert(operator(src[old(self).start as int], false) is None);
            assert(token_views(self.tokens@) =~= before + as_seq(lexed.token));
        }
    }

    /// Scans the rest of a string literal whose opening quote has been read.
    fn string(&mut self) -> (result: Result<(), LoxResult>)
        requires
            old(self).wf(),
            old(self).start + 1 == old(self).cursor.position(),
            old(self).line <= old(self).cursor.position(),
        ensures
            final(self).wf(),
            final(self).cursor.text() == old(self).cursor.text(),
            final(self).errors@ == old(self).errors@,
            ({
                let rest = string_end(
                    old(self).cursor.text(),
                    old(self).cursor.position(),
                    old(self).line as nat,
                );
                &&& final(self).cursor.position() == rest.end
                &&& final(self).line == rest.line
                &&& match result {
                    Ok(_) => rest.closed && token_views(final(self).tokens@) == token_views(
                        old(self).tokens@,
                    ).push(
                        TokenView {
                            kind: TokenType::String,
                            lexeme: old(self).cursor.text().subrange(
                                old(self).start as int,
                                rest.end,
                            ),
                            literal: Some(
                                LiteralView::Str(
                                    old(self).cursor.text().subrange(
                                        old(self).start + 1,
                                        rest.end - 1,
                                    ),
                                ),
                            ),
                            line: rest.line,
                        },
                    ),
                    Err(e) => !rest.closed && final(self).tokens@ == old(self).tokens@ && e@ == (
                    LoxResultView::LexError { line: rest.line, message: "Unterminated String"@ }),
                }
            }),
    {
        let ghost src = self.cursor.text();
        let ghost whole = string_end(src, self.cursor.position(), self.line as nat);
        // Consume chars until we find the ending quote
        while is_before(self.peek(), '"')
            invariant
                self.wf(),
                self.cursor.text() == src,
                self.start == old(self).start,
                self.tokens@ == old(self).tokens@,
                self.errors@ == old(self).errors@,
                self.start < self.cursor.position(),
                self.line <= self.cursor.position(),
                string_end(src, self.cursor.position(), self.line as nat) == whole,
            decreases src.len() - self.cursor.position(),
        {
            let ch = self.advance();
            if ch == '\n' {
                self.line += 1;
            }
        }

        // If there is no ending quote then we complain
        if self.is_at_end() {
            return Err(LoxResult::new_lex_error(self.line, "Unterminated String"));
        }
        // Consume closing quote
        self.advance();

        // Get the value excluding the quotes
        let value = self.cursor.slice(self.start + 1, self.cursor.offset() - 1);
        self.add_token_object(TokenType::String, Some(Literal::Str(value)));
        Ok(())
    }

    /// Like `advance`, but doesn't consume chars.
    fn peek(&self) -> (next: Option<char>)
        requires
            self.wf(),
        ensures
            next == if self.cursor.position() < self.cursor.text().len() {
                Some(self.cursor.text()[self.cursor.position()])
            } else {
                None
            },
    {
        self.cursor.peek()
    }

    /// Peeks two chars ahead.
    fn peek_next(&self) -> (next: Option<char>)
        requires
            self.wf(),
        ensures
            next == if self.cursor.position() + 1 < self.cursor.text().len() {
                Some(self.cursor.text()[self.cursor.position() + 1])
            } else {
                None
            },
    {
        self.cursor.peek_next()
    }

    /// Consumes the next char in the source file, then returns it.
    fn advance(&mut self) -> (c: char)
        requires
            old(self).wf(),
            old(self).cursor.position() < old(self).cursor.text().len(),
        ensures
            final(self).wf(),
            final(self).cursor.text() == old(self).cursor.text(),
            final(self).cursor.position() == old(self).cursor.position() + 1,
            final(self).tokens@ == old(self).tokens@,
            final(self).errors@ == old(self).errors@,
            final(self).start == old(self).start,
            final(self).line == old(self).line,
            c == old(self).cursor.text()[old(self).cursor.position()],
    {
        self.cursor.advance()
    }

    /// Appends a token with no literal.
    fn add_token(&mut self, ttype: TokenType)
        requires
            old(self).wf(),
            old(self).start <= old(self).cursor.position(),
        ensures
            final(self).wf(),
            final(self).cursor == old(self).cursor,
            final(self).errors@ == old(self).errors@,
            final(self).start == old(self).start,
            final(self).line == old(self).line,
            token_views(final(self).tokens@) == token_views(old(self).tokens@).push(
                TokenView {
                    kind: ttype,
                    lexeme: old(self).cursor.text().subrange(
                        old(self).start as int,
                        old(self).cursor.position(),
                    ),
                    literal: None,
                    line: old(self).line as nat,
                },
            ),
    {
        self.add_token_object(ttype, None);
    }

    /// Appends a token.
    fn add_token_object(&mut self, ttype: TokenType, literal: Option<Literal>)
        requires
            old(self).wf(),
            old(self).start <= old(self).cursor.position(),
        ensures
            final(self).wf(),
            final(self).cursor == old(self).cursor,
            final(self).errors@ == old(self).errors@,
            final(self).start == old(self).start,
            final(self).line == old(self).line,
            token_views(final(self).tokens@) == token_views(old(self).tokens@).push(
                TokenView {
                    kind: ttype,
                    lexeme: old(self).cursor.text().subrange(
                        old(self).start as int,
                        old(self).cursor.position(),
                    ),
                    literal: match literal {
                        Some(l) => Some(l@),
                        None => None,
                    },
                    line: old(self).line as nat,
                },
            ),
    {
        let lexeme = self.cursor.slice(self.start, self.cursor.offset());
        let ghost before = token_views(self.tokens@);
        let token = Token::new(ttype, lexeme, literal, self.line);
        self.tokens.push(token);
        assert(token_views(self.tokens@) =~= before.push(token@));
    }

    /// Whether the whole source has been scanned.
    pub fn is_at_end(&self) -> (end: bool)
        ensures
            end == (self@.position >= self@.source.len()),
    {
        self.cursor.is_at_end()
    }

    /// If the expected char matches the actual char it will return true. The char
    /// is consumed and we advance.
    fn is_match(&mut self, expected: char) -> (found: bool)
        requires
            old(self).wf(),
        ensures
            final(self).wf(),
            final(self).cursor.text() == old(self).cursor.text(),
            final(self).tokens@ == old(self).tokens@,
            final(self).errors@ == old(self).errors@,
            final(self).start == old(self).start,
            final(self).line == old(self).line,
            found == follows(old(self).cursor.text(), old(self).cursor.position(), expected),
            final(self).cursor.position() == old(self).cursor.position() + if found {
                1int
            } else {
                0int
            },
    {
        self.cursor.is_match(expected)
    }
}

} // verus!
