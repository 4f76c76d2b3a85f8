use nof::diag::{kind_name_str, render_diagnostic};
use nof::text::{make_repeat, usize_to_string};
use nof::tokens::{Location, TokenKind};

#[test]
fn numbers_render_in_decimal() {
    assert_eq!(usize_to_string(0), "0");
    assert_eq!(usize_to_string(7), "7");
    assert_eq!(usize_to_string(10), "10");
    assert_eq!(usize_to_string(907), "907");
    assert_eq!(usize_to_string(120051), "120051");
}

#[test]
fn repeats_build_padding() {
    assert_eq!(make_repeat(' ', 0), "");
    assert_eq!(make_repeat('^', 3), "^^^");
}

#[test]
fn kind_names_match_their_variants() {
    assert_eq!(kind_name_str(TokenKind::Identifier), "Identifier");
    assert_eq!(kind_name_str(TokenKind::String), "String");
    assert_eq!(kind_name_str(TokenKind::Number), "Number");
    assert_eq!(kind_name_str(TokenKind::Keyword), "Keyword");
    assert_eq!(kind_name_str(TokenKind::Type), "Type");
    assert_eq!(kind_name_str(TokenKind::OParen), "OParen");
    assert_eq!(kind_name_str(TokenKind::CParen), "CParen");
    assert_eq!(kind_name_str(TokenKind::OCurly), "OCurly");
    assert_eq!(kind_name_str(TokenKind::CCurly), "CCurly");
    assert_eq!(kind_name_str(TokenKind::Semicolon), "Semicolon");
    assert_eq!(kind_name_str(TokenKind::Comma), "Comma");
    assert_eq!(kind_name_str(TokenKind::Eof), "Eof");
}

#[test]
fn diagnostic_renders_with_caret_run() {
    let location = Location {
        source_code_path: "main.nof".to_string(),
        line_number: 2,
        start_col: 3,
        end_col: 5,
    };
    let rendered = render_diagnostic("Something is off", &location, "a bcd e");
    let expected = "[Error]\nSomething is off\n\n[Location] main.nof:2:3\n   |\n 2 | a bcd e\n   |   ^^^\n";
    assert_eq!(rendered, expected);
}

#[test]
fn diagnostic_pads_wide_line_numbers() {
    let location = Location {
        source_code_path: "m.nof".to_string(),
        line_number: 12,
        start_col: 1,
        end_col: 1,
    };
    let rendered = render_diagnostic("msg", &location, "x");
    let expected = "[Error]\nmsg\n\n[Location] m.nof:12:1\n    |\n 12 | x\n    | ^\n";
    assert_eq!(rendered, expected);
}
