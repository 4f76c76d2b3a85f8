use crate::text::{dec_digits, make_repeat, push_char, repeat_char, usize_to_string};
use crate::tokens::{Location, LocationView, TokenKind};
use vstd::prelude::*;
use vstd::string::{StrSliceExecFns, StringExecFns};

verus! {

// ---------------------------------------------------------------------------
// Structured diagnostics.
//
// Every failure of the tokenizer or of the parser is reported as a value:
// a kind, a rendered message, and the source coordinates it points at.
// Only a driver outside this library decides what to do with one.
// ---------------------------------------------------------------------------

/// What went wrong while scanning characters.
#[derive(Debug, Clone, Copy, PartialEq, Eq, Structural)]
pub enum LexErrorKind {
    UnknownCharacter,
    UnterminatedString,
}

/// A tokenizer failure: its kind, its message, and where it points.
#[derive(Debug, Clone, PartialEq)]
pub struct LexError {
    pub kind: LexErrorKind,
    pub message: String,
    pub location: Location,
}

/// Mathematical image of a `LexError`.
pub ghost struct LexErrorView {
    pub kind: LexErrorKind,
    pub message: Seq<char>,
    pub location: LocationView,
}

impl View for LexError {
    type V = LexErrorView;

    open spec fn view(&self) -> LexErrorView {
        LexErrorView { kind: self.kind, message: self.message@, location: self.location@ }
    }
}

/// What went wrong while consuming tokens.
#[derive(Debug, Clone, Copy, PartialEq, Eq, Structural)]
pub enum ParseErrorKind {
    UnexpectedTokenKind,
    MissingExpectedKind,
    UnimplementedConstruct,
}

/// A parser failure: its kind, its message, and the offending token's
/// coordinates.
#[derive(Debug, Clone, PartialEq)]
pub struct ParseError {
    pub kind: ParseErrorKind,
    pub message: String,
    pub location: Location,
}

/// Mathematical image of a `ParseError`.
pub ghost struct ParseErrorView {
    pub kind: ParseErrorKind,
    pub message: Seq<char>,
    pub location: LocationView,
}

impl View for ParseError {
    type V = ParseErrorView;

    open spec fn view(&self) -> ParseErrorView {
        ParseErrorView { kind: self.kind, message: self.message@, location: self.location@ }
    }
}

// ---------------------------------------------------------------------------
// Message texts.
// ---------------------------------------------------------------------------

/// The printed name of a token kind.
pub open spec fn kind_name(k: TokenKind) -> Seq<char> {
    match k {
        TokenKind::Identifier => "Identifier"@,
        TokenKind::String => "String"@,
        TokenKind::Number => "Number"@,
        TokenKind::Keyword => "Keyword"@,
        TokenKind::Type => "Type"@,
        TokenKind::OParen => "OParen"@,
        TokenKind::CParen => "CParen"@,
        TokenKind::OCurly => "OCurly"@,
        TokenKind::CCurly => "CCurly"@,
        TokenKind::Semicolon => "Semicolon"@,
        TokenKind::Comma => "Comma"@,
        TokenKind::Eof => "Eof"@,
    }
}

/// Exec mirror of `kind_name`.
pub fn kind_name_str(k: TokenKind) -> (r: &'static str)
    ensures
        r@ == kind_name(k),
{
    match k {
        TokenKind::Identifier => "Identifier",
        TokenKind::String => "String",
        TokenKind::Number => "Number",
        TokenKind::Keyword => "Keyword",
        TokenKind::Type => "Type",
        TokenKind::OParen => "OParen",
        TokenKind::CParen => "CParen",
        TokenKind::OCurly => "OCurly",
        TokenKind::CCurly => "CCurly",
        TokenKind::Semicolon => "Semicolon",
        TokenKind::Comma => "Comma",
        TokenKind::Eof => "Eof",
    }
}

/// Message for one expected token kind that was not found.
pub open spec fn msg_expected(expected: TokenKind, after: Seq<char>, found: TokenKind) -> Seq<
    char,
> {
    "Expected token kind `"@ + kind_name(expected) + "` after `"@ + after + "`, but found `"@
        + kind_name(found) + "`"@
}

/// Message for a token that is none of the kinds accepted at its place.
pub open spec fn msg_expected_either(kinds: Seq<char>, after: Seq<char>, found: TokenKind) -> Seq<
    char,
> {
    "Expected either of token kinds `["@ + kinds + "]` after `"@ + after + "`, but found `"@
        + kind_name(found) + "`"@
}

/// Message for a keyword the parser does not handle.
pub open spec fn msg_keyword_unimplemented(value: Seq<char>) -> Seq<char> {
    "Keyword `"@ + value + "` not implemented"@
}

/// Message for a token kind the parser does not handle at statement position.
pub open spec fn msg_token_unimplemented(value: Seq<char>, k: TokenKind) -> Seq<char> {
    "Token `"@ + value + "` (kind: `"@ + kind_name(k) + "`) not implemented"@
}

/// Message for a variable declaration, which the language does not have yet.
pub open spec fn msg_variable_unimplemented() -> Seq<char> {
    "Variable declarations not implemented"@
}

/// Message for a character the tokenizer cannot start a token with.
pub open spec fn msg_unexpected_char(c: char) -> Seq<char> {
    "Unexpected character '"@ + seq![c] + "'"@
}

/// Message for a string literal that never closes.
pub open spec fn msg_unterminated_string(line: int, col: int) -> Seq<char> {
    "Unended string since line "@ + dec_digits(line) + ", column "@ + dec_digits(col)
        + "\n\n[Help]\nConsider adding a '\"' when the string ends."@
}

/// Builds `msg_expected`.
pub fn build_msg_expected(expected: TokenKind, after: &String, found: TokenKind) -> (r: String)
    ensures
        r@ == msg_expected(expected, after@, found),
{
    let mut out = String::new();
    out.append("Expected token kind `");
    out.append(kind_name_str(expected));
    out.append("` after `");
    out.append(after.as_str());
    out.append("`, but found `");
    out.append(kind_name_str(found));
    out.append("`");
    proof {
        assert(out@ =~= msg_expected(expected, after@, found));
    }
    out
}

/// Builds `msg_expected_either`.
pub fn build_msg_expected_either(kinds: &str, after: &String, found: TokenKind) -> (r: String)
    ensures
        r@ == msg_expected_either(kinds@, after@, found),
{
    let mut out = String::new();
    out.append("Expected either of token kinds `[");
    out.append(kinds);
    out.append("]` after `");
    out.append(after.as_str());
    out.append("`, but found `");
    out.append(kind_name_str(found));
    out.append("`");
    proof {
        assert(out@ =~= msg_expected_either(kinds@, after@, found));
    }
    out
}

/// Builds `msg_keyword_unimplemented`.
pub fn build_msg_keyword_unimplemented(value: &String) -> (r: String)
    ensures
        r@ == msg_keyword_unimplemented(value@),
{
    let mut out = String::new();
    out.append("Keyword `");
    out.append(value.as_str());
    out.append("` not implemented");
    proof {
        assert(out@ =~= msg_keyword_unimplemented(value@));
    }
    out
}

/// Builds `msg_token_unimplemented`.
pub fn build_msg_token_unimplemented(value: &String, k: TokenKind) -> (r: String)
    ensures
        r@ == msg_token_unimplemented(value@, k),
{
    let mut out = String::new();
    out.append("Token `");
    out.append(value.as_str());
    out.append("` (kind: `");
    out.append(kind_name_str(k));
    out.append("`) not implemented");
    proof {
        assert(out@ =~= msg_token_unimplemented(value@, k));
    }
    out
}

/// Builds `msg_variable_unimplemented`.
pub fn build_msg_variable_unimplemented() -> (r: String)
    ensures
        r@ == msg_variable_unimplemented(),
{
    let mut out = String::new();
    out.append("Variable declarations not implemented");
    proof {
        assert(out@ =~= msg_variable_unimplemented());
    }
    out
}

/// Builds `msg_unexpected_char`.
pub fn build_msg_unexpected_char(c: char) -> (r: String)
    ensures
        r@ == msg_unexpected_char(c),
{
    let mut out = String::new();
    out.append("Unexpected character '");
    push_char(&mut out, c);
    out.append("'");
    proof {
        assert(out@ =~= msg_unexpected_char(c));
    }
    out
}

/// Builds `msg_unterminated_string`.
pub fn build_msg_unterminated_string(line: usize, col: usize) -> (r: String)
    ensures
        r@ == msg_unterminated_string(line as int, col as int),
{
    let mut out = String::new();
    out.append("Unended string since line ");
    let l = usize_to_string(line);
    out.append(l.as_str());
    out.append(", column ");
    let c = usize_to_string(col);
    out.append(c.as_str());
    out.append("\n\n[Help]\nConsider adding a '\"' when the string ends.");
    proof {
        assert(out@ =~= msg_unterminated_string(line as int, col as int));
    }
    out
}

// ---------------------------------------------------------------------------
// Rendering.
// ---------------------------------------------------------------------------

/// The rendered form of a diagnostic: the message, a pointer line naming
/// file, line and column, the source line, and a caret run under the
/// offending columns.
pub open spec fn spec_render(msg: Seq<char>, loc: LocationView, line_text: Seq<char>) -> Seq<
    char,
> {
    let num = dec_digits(loc.line);
    let pad = repeat_char(' ', num.len() as int);
    "[Error]\n"@ + msg + "\n\n[Location] "@ + loc.path + ":"@ + num + ":"@ + dec_digits(
        loc.start_col,
    ) + "\n "@ + pad + " |\n "@ + num + " | "@ + line_text + "\n "@ + pad + " |"@ + repeat_char(
        ' ',
        loc.start_col,
    ) + repeat_char('^', loc.end_col - loc.start_col + 1) + "\n"@
}

/// Renders a diagnostic for printing. `line_text` is the text of the source
/// line the location points into.
pub fn render_diagnostic(message: &str, location: &Location, line_text: &str) -> (r: String)
    requires
        location@.start_col <= location@.end_col < usize::MAX,
    ensures
        r@ == spec_render(message@, location@, line_text@),
{
    let num = usize_to_string(location.line_number);
    let num_len = num.as_str().unicode_len();
    let pad = make_repeat(' ', num_len);
    let mut out = String::new();
    out.append("[Error]\n");
    out.append(message);
    out.append("\n\n[Location] ");
    out.append(location.source_code_path.as_str());
    out.append(":");
    out.append(num.as_str());
    out.append(":");
    let col = usize_to_string(location.start_col);
    out.append(col.as_str());
    out.append("\n ");
    out.append(pad.as_str());
    out.append(" |\n ");
    out.append(num.as_str());
    out.append(" | ");
    out.append(line_text);
    out.append("\n ");
    out.append(pad.as_str());
    out.append(" |");
    let sp = make_repeat(' ', location.start_col);
    out.append(sp.as_str());
    let car = make_repeat('^', location.end_col - location.start_col + 1);
    out.append(car.as_str());
    out.append("\n");
    proof {
        assert(out@ =~= spec_render(message@, location@, line_text@));
    }
    out
}

} // verus!
