//! Source text to tokens.
use lox_ast::error::LoxResult;
use lox_ast::lexer::{chars_of, Lexer};
use lox_ast::scanner::Scanner;
use lox_ast::tokens::{Literal, Token, TokenType};

fn scan(source: &str) -> (Vec<Token>, Vec<LoxResult>) {
    let mut scanner = Scanner::new(source.to_string());
    let result = scanner.scan_tokens().map(|tokens| tokens.clone());
    let tokens = scanner.tokens().clone();
    let errors = scanner.errors().clone();
    match result {
        Ok(scanned) => {
            assert!(errors.is_empty());
            assert_eq!(scanned, tokens);
        }
        Err(last) => assert_eq!(Some(&last), errors.last()),
    }
    assert!(scanner.is_at_end());
    (tokens, errors)
}

fn kinds(source: &str) -> Vec<TokenType> {
    scan(source).0.iter().map(|t| t.token_type()).collect()
}

fn lexemes(source: &str) -> Vec<String> {
    scan(source).0.iter().map(|t| t.lexeme.clone()).collect()
}

#[test]
fn empty_source_is_one_eof_on_line_one() {
    let (tokens, errors) = scan("");
    assert!(errors.is_empty());
    assert_eq!(tokens, vec![Token::eof(1)]);
    assert_eq!(tokens[0], Token::new(TokenType::Eof, String::new(), None, 1));
}

#[test]
fn punctuation_and_operators() {
    assert_eq!(
        kinds("(){},.-+;*/ ! != = == < <= > >="),
        vec![
            TokenType::LeftParen, TokenType::RightParen, TokenType::LeftBrace, TokenType::RightBrace, TokenType::Comma, TokenType::Dot, TokenType::Minus, TokenType::Plus, TokenType::Semicolon, TokenType::Star,
            TokenType::Slash, TokenType::Bang, TokenType::BangEqual, TokenType::Assign, TokenType::Equal, TokenType::Less, TokenType::LessEqual, TokenType::Greater, TokenType::GreaterEqual, TokenType::Eof
        ]
    );
    assert_eq!(lexemes("!= ==<=>=!"), vec!["!=", "==", "<=", ">=", "!", ""]);
    assert_eq!(kinds("==="), vec![TokenType::Equal, TokenType::Assign, TokenType::Eof]);
}

#[test]
fn keywords_are_case_sensitive() {
    assert_eq!(
        kinds("and break class else false for fun if nil or print return super this true var while"),
        vec![
            TokenType::And, TokenType::Break, TokenType::Class, TokenType::Else, TokenType::False, TokenType::For, TokenType::Fun, TokenType::If, TokenType::Nil, TokenType::Or, TokenType::Print, TokenType::Return, TokenType::Super, TokenType::This, TokenType::True,
            TokenType::Var, TokenType::While, TokenType::Eof
        ]
    );
    assert_eq!(kinds("And nil_ _if var1 While"), vec![TokenType::Identifier, TokenType::Identifier, TokenType::Identifier, TokenType::Identifier, TokenType::Identifier, TokenType::Eof]);
    assert_eq!(lexemes("foo_bar9 x"), vec!["foo_bar9", "x", ""]);
}

#[test]
fn numbers_keep_their_digits() {
    let (tokens, errors) = scan("123 4.5 6. .7 8.9.1");
    assert!(errors.is_empty());
    let seen: Vec<(TokenType, String, Option<Literal>)> =
        tokens.iter().map(|t| (t.token_type(), t.lexeme.clone(), t.literal.clone())).collect();
    let number = |text: &str| {
        (TokenType::Number, text.to_string(), Some(Literal::Number(text.to_string())))
    };
    let dot = (TokenType::Dot, ".".to_string(), None);
    assert_eq!(
        seen,
        vec![
            number("123"),
            number("4.5"),
            number("6"),
            dot.clone(),
            dot.clone(),
            number("7"),
            number("8.9"),
            dot,
            number("1"),
            (TokenType::Eof, String::new(), None),
        ]
    );
}

#[test]
fn strings_run_over_lines() {
    let (tokens, errors) = scan("\"one\ntwo\" x");
    assert!(errors.is_empty());
    assert_eq!(
        tokens[0],
        Token::new(
            TokenType::String,
            "\"one\ntwo\"".to_string(),
            Some(Literal::Str("one\ntwo".to_string())),
            2
        )
    );
    assert_eq!(tokens[1], Token::new(TokenType::Identifier, "x".to_string(), None, 2));
    assert_eq!(tokens[2], Token::eof(2));
    let (tokens, _) = scan("\"\"");
    assert_eq!(tokens[0].literal, Some(Literal::Str(String::new())));
}

#[test]
fn unterminated_string_is_an_error_on_the_last_line() {
    let (tokens, errors) = scan("a \"bc\nd");
    assert_eq!(errors, vec![LoxResult::new_lex_error(2, "Unterminated String")]);
    assert_eq!(
        tokens,
        vec![Token::new(TokenType::Identifier, "a".to_string(), None, 1), Token::eof(2)]
    );
}

#[test]
fn line_comments_end_with_the_line() {
    assert_eq!(kinds("a // b c\n d // e"), vec![TokenType::Identifier, TokenType::Identifier, TokenType::Eof]);
    let (tokens, _) = scan("// only\n\n");
    assert_eq!(tokens, vec![Token::eof(3)]);
}

#[test]
fn block_comments_nest() {
    assert_eq!(kinds("a /* b /* c */ d */ e"), vec![TokenType::Identifier, TokenType::Identifier, TokenType::Eof]);
    assert_eq!(lexemes("/* /* */ */ x /**/ y /*/ z */"), vec!["x", "y", ""]);
    assert_eq!(kinds("1 /* * / ** */ 2"), vec![TokenType::Number, TokenType::Number, TokenType::Eof]);
    let (tokens, errors) = scan("/* a\n b */ c");
    assert!(errors.is_empty());
    assert_eq!(tokens[0], Token::new(TokenType::Identifier, "c".to_string(), None, 2));
}

#[test]
fn unterminated_block_comment_is_an_error_where_input_ends() {
    let (tokens, errors) = scan("a /* b /* c */\n d\n");
    assert_eq!(errors, vec![LoxResult::new_lex_error(3, "Unterminated block comment.")]);
    assert_eq!(
        tokens,
        vec![Token::new(TokenType::Identifier, "a".to_string(), None, 1), Token::eof(3)]
    );
}

#[test]
fn unexpected_characters_do_not_stop_the_scan() {
    let (tokens, errors) = scan("a @ b\n# c");
    assert_eq!(
        errors,
        vec![
            LoxResult::new_lex_error(1, "Unexpected character '@'"),
            LoxResult::new_lex_error(2, "Unexpected character '#'"),
        ]
    );
    assert_eq!(
        tokens.iter().map(|t| (t.lexeme.as_str(), t.line)).collect::<Vec<_>>(),
        vec![("a", 1), ("b", 1), ("c", 2), ("", 2)]
    );
    let mut scanner = Scanner::new("?".to_string());
    assert_eq!(scanner.scan_tokens(), Err(LoxResult::new_lex_error(1, "Unexpected character '?'")));
}

#[test]
fn characters_outside_ascii_are_kept_whole() {
    let (tokens, errors) = scan("\"h\u{e9}\u{4e16}\" \u{e9}");
    assert_eq!(tokens[0].literal, Some(Literal::Str("h\u{e9}\u{4e16}".to_string())));
    assert_eq!(errors, vec![LoxResult::new_lex_error(1, "Unexpected character '\u{e9}'")]);
}

#[test]
fn lines_are_counted_from_one() {
    let (tokens, _) = scan("a\nb\r\n\tc\n");
    assert_eq!(tokens.iter().map(|t| t.line).collect::<Vec<_>>(), vec![1, 2, 3, 4]);
}

#[test]
fn scanning_again_adds_an_eof() {
    let mut scanner = Scanner::new("a".to_string());
    assert_eq!(scanner.scan_tokens().map(|t| t.len()), Ok(2));
    assert_eq!(scanner.scan_tokens().map(|t| t.len()), Ok(3));
}

#[test]
fn cursor_reads_one_character_at_a_time() {
    let mut lexer = Lexer::new("ab=c".to_string());
    assert_eq!(lexer.len(), 4);
    assert_eq!(lexer.offset(), 0);
    assert!(!lexer.is_at_end());
    assert_eq!(lexer.peek(), Some('a'));
    assert_eq!(lexer.peek_next(), Some('b'));
    assert_eq!(lexer.advance(), 'a');
    assert!(!lexer.is_match('='));
    assert!(lexer.is_match('b'));
    assert!(lexer.is_match('='));
    assert_eq!(lexer.offset(), 3);
    assert_eq!(lexer.peek(), Some('c'));
    assert_eq!(lexer.peek_next(), None);
    assert_eq!(lexer.advance(), 'c');
    assert!(lexer.is_at_end());
    assert_eq!(lexer.peek(), None);
    assert!(!lexer.is_match('c'));
    assert_eq!(lexer.slice(1, 3), "b=");
    assert_eq!(lexer.slice(2, 2), "");
    assert!(lexer.spells(0, 2, "ab"));
    assert!(!lexer.spells(0, 2, "ac"));
    assert!(!lexer.spells(0, 2, "abc"));
    assert!(lexer.spells(4, 4, ""));
}

#[test]
fn characters_of_a_text() {
    assert_eq!(chars_of("a\u{e9}b"), vec!['a', '\u{e9}', 'b']);
    assert_eq!(chars_of(""), Vec::<char>::new());
}
