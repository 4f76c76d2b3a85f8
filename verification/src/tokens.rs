use vstd::prelude::*;

verus! {

/// Lexical category of a token.
#[derive(Debug, Clone, Copy, PartialEq, Eq, Structural)]
pub enum TokenKind {
    Identifier,
    String,
    Number,
    Keyword,
    Type,
    OParen,
    CParen,
    OCurly,
    CCurly,
    Semicolon,
    Comma,
    Eof,
}

/// Source coordinates of a token: the file it came from, a 1-based line
/// number, and 1-based, inclusive start and end columns.
#[derive(Debug, Clone, PartialEq)]
pub struct Location {
    pub source_code_path: String,
    pub line_number: usize,
    pub start_col: usize,
    pub end_col: usize,
}

/// Mathematical image of a `Location`.
pub ghost struct LocationView {
    pub path: Seq<char>,
    pub line: int,
    pub start_col: int,
    pub end_col: int,
}

impl View for Location {
    type V = LocationView;

    open spec fn view(&self) -> LocationView {
        LocationView {
            path: self.source_code_path@,
            line: self.line_number as int,
            start_col: self.start_col as int,
            end_col: self.end_col as int,
        }
    }
}

impl Location {
    /// The coordinates a scan starts from: line 1, before the first column.
    pub fn new(source_code_path: String) -> (r: Self)
        ensures
            r@.path == source_code_path@,
            r@.line == 1,
            r@.start_col == 0,
            r@.end_col == 0,
    {
        Self { source_code_path, line_number: 1, start_col: 0, end_col: 0 }
    }

    /// A fresh location equal to this one.
    pub fn duplicate(&self) -> (r: Self)
        ensures
            r@ == self@,
    {
        Location {
            source_code_path: self.source_code_path.clone(),
            line_number: self.line_number,
            start_col: self.start_col,
            end_col: self.end_col,
        }
    }
}

/// One lexical unit: its category, its exact text, and where it stands in
/// the source.
#[derive(Debug, Clone, PartialEq)]
pub struct Token {
    pub kind: TokenKind,
    pub value: String,
    pub location: Location,
}

/// Mathematical image of a `Token`.
pub ghost struct TokenView {
    pub kind: TokenKind,
    pub value: Seq<char>,
    pub location: LocationView,
}

impl View for Token {
    type V = TokenView;

    open spec fn view(&self) -> TokenView {
        TokenView { kind: self.kind, value: self.value@, location: self.location@ }
    }
}

impl Token {
    /// A fresh token equal to this one.
    pub fn duplicate(&self) -> (r: Self)
        ensures
            r@ == self@,
    {
        Token { kind: self.kind, value: self.value.clone(), location: self.location.duplicate() }
    }
}

/// The token sequences the parser accepts: non-empty, ending in the
/// end-of-input marker, which occurs nowhere else.
pub open spec fn wf_token_seq(ts: Seq<TokenView>) -> bool {
    &&& ts.len() >= 1
    &&& ts[ts.len() - 1].kind == TokenKind::Eof
    &&& forall|k: int| 0 <= k < ts.len() - 1 ==> (#[trigger] ts[k].kind) != TokenKind::Eof
}

/// The images of a sequence of tokens.
pub open spec fn token_views(ts: Seq<Token>) -> Seq<TokenView> {
    ts.map_values(|t: Token| t@)
}

} // verus!
