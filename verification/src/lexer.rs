use crate::diag::{
    build_msg_unexpected_char, build_msg_unterminated_string, msg_unexpected_char,
    msg_unterminated_string, LexError, LexErrorKind, LexErrorView,
};
use crate::text::{
    char_is_whitespace, col_of, id_continue, id_start, is_id_continue, is_id_start,
    is_whitespace_char, lemma_line_of_bounds, lemma_line_start_bounds, line_of, line_start_of,
    push_char,
};
use crate::tokens::{token_views, Location, LocationView, Token, TokenKind, TokenView};
use vstd::prelude::*;
use vstd::string::{StrSliceExecFns, StringExecFns};

verus! {

// ---------------------------------------------------------------------------
// Word tables.
// ---------------------------------------------------------------------------

/// The one reserved keyword: the import directive's word.
pub open spec fn import_keyword() -> Seq<char> {
    seq!['i', 'n', 'c', 'l', 'u', 'd', 'e']
}

/// The one built-in type name.
pub open spec fn void_type() -> Seq<char> {
    seq!['v', 'o', 'i', 'd']
}

/// How a finished identifier run is categorised.
pub open spec fn classify_word(w: Seq<char>) -> TokenKind {
    if w == import_keyword() {
        TokenKind::Keyword
    } else if w == void_type() {
        TokenKind::Type
    } else {
        TokenKind::Identifier
    }
}

/// Builds the keyword's text.
pub(crate) fn keyword_string() -> (s: String)
    ensures
        s@ == import_keyword(),
{
    let mut s = String::new();
    push_char(&mut s, 'i');
    push_char(&mut s, 'n');
    push_char(&mut s, 'c');
    push_char(&mut s, 'l');
    push_char(&mut s, 'u');
    push_char(&mut s, 'd');
    push_char(&mut s, 'e');
    proof {
        assert(s@ =~= import_keyword());
    }
    s
}

/// Builds the type name's text.
fn type_string() -> (s: String)
    ensures
        s@ == void_type(),
{
    let mut s = String::new();
    push_char(&mut s, 'v');
    push_char(&mut s, 'o');
    push_char(&mut s, 'i');
    push_char(&mut s, 'd');
    proof {
        assert(s@ =~= void_type());
    }
    s
}

/// Exec mirror of `classify_word`.
pub fn classify(value: &String) -> (k: TokenKind)
    ensures
        k == classify_word(value@),
{
    let kw = keyword_string();
    let ty = type_string();
    if value.eq(&kw) {
        TokenKind::Keyword
    } else if value.eq(&ty) {
        TokenKind::Type
    } else {
        TokenKind::Identifier
    }
}

// ---------------------------------------------------------------------------
// The mathematical tokenizer.
// ---------------------------------------------------------------------------

/// Where the identifier run that continues at `i` ends: the first position
/// at or after `i` that cannot continue an identifier.
pub open spec fn ident_end(s: Seq<char>, i: int) -> int
    decreases s.len() - i,
    when 0 <= i <= s.len()
{
    if i >= s.len() {
        i
    } else if id_continue(s[i]) {
        ident_end(s, i + 1)
    } else {
        i
    }
}

pub proof fn lemma_ident_end(s: Seq<char>, i: int)
    requires
        0 <= i <= s.len(),
    ensures
        i <= ident_end(s, i) <= s.len(),
        forall|k: int| i <= k < ident_end(s, i) ==> id_continue(#[trigger] s[k]),
        ident_end(s, i) == s.len() || !id_continue(s[ident_end(s, i)]),
    decreases s.len() - i,
{
    if i < s.len() && id_continue(s[i]) {
        lemma_ident_end(s, i + 1);
    }
}

/// The first position at or after `i` holding a closing quote; the sequence
/// length if there is none.
pub open spec fn string_close(s: Seq<char>, i: int) -> int
    decreases s.len() - i,
    when 0 <= i <= s.len()
{
    if i >= s.len() {
        i
    } else if s[i] == '"' {
        i
    } else {
        string_close(s, i + 1)
    }
}

pub proof fn lemma_string_close(s: Seq<char>, i: int)
    requires
        0 <= i <= s.len(),
    ensures
        i <= string_close(s, i) <= s.len(),
        forall|k: int| i <= k < string_close(s, i) ==> (#[trigger] s[k]) != '"',
        string_close(s, i) < s.len() ==> s[string_close(s, i)] == '"',
    decreases s.len() - i,
{
    if i < s.len() && s[i] != '"' {
        lemma_string_close(s, i + 1);
    }
}

/// Whether position `i` stands on a line whose first two characters are
/// slashes; such a line is a comment and yields no token.
pub open spec fn on_comment_line(s: Seq<char>, i: int) -> bool {
    let ls = line_start_of(s, i);
    ls + 1 < s.len() && s[ls] == '/' && s[ls + 1] == '/'
}

/// The punctuation token kind of a character, if it has one.
pub open spec fn punct_kind(c: char) -> Option<TokenKind> {
    if c == ';' {
        Some(TokenKind::Semicolon)
    } else if c == ',' {
        Some(TokenKind::Comma)
    } else if c == '(' {
        Some(TokenKind::OParen)
    } else if c == ')' {
        Some(TokenKind::CParen)
    } else if c == '{' {
        Some(TokenKind::OCurly)
    } else if c == '}' {
        Some(TokenKind::CCurly)
    } else {
        None
    }
}

/// A location within file `p`, on `line`, spanning columns `sc` to `ec`.
pub open spec fn loc_at(p: Seq<char>, line: int, sc: int, ec: int) -> LocationView {
    LocationView { path: p, line: line, start_col: sc, end_col: ec }
}

/// A token and the tokens after it, unless those fail.
pub open spec fn prepend_token(t: TokenView, r: Result<Seq<TokenView>, LexErrorView>) -> Result<
    Seq<TokenView>,
    LexErrorView,
> {
    match r {
        Ok(ts) => Ok(seq![t] + ts),
        Err(e) => Err(e),
    }
}

/// The tokens of `s` from position `i` on, or the first failure. This is
/// the ground truth the executable tokenizer is proved against: one token
/// per dispatch on the character at the cursor, ending in a single
/// end-of-input token at the final cursor position.
pub open spec fn spec_tokenize_from(s: Seq<char>, p: Seq<char>, i: int) -> Result<
    Seq<TokenView>,
    LexErrorView,
>
    decreases s.len() - i,
    when 0 <= i <= s.len()
    via spec_tokenize_from_dec
{
    if i >= s.len() {
        Ok(
            seq![
                TokenView {
                    kind: TokenKind::Eof,
                    value: Seq::empty(),
                    location: loc_at(p, line_of(s, i), col_of(s, i), col_of(s, i)),
                },
            ],
        )
    } else if on_comment_line(s, i) {
        spec_tokenize_from(s, p, i + 1)
    } else if char_is_whitespace(s[i]) {
        spec_tokenize_from(s, p, i + 1)
    } else if id_start(s[i]) {
        let j = ident_end(s, i + 1);
        let w = s.subrange(i, j);
        prepend_token(
            TokenView {
                kind: classify_word(w),
                value: w,
                location: loc_at(p, line_of(s, i), col_of(s, i), col_of(s, j - 1)),
            },
            spec_tokenize_from(s, p, j),
        )
    } else if s[i] == '"' {
        let j = string_close(s, i + 1);
        if j >= s.len() {
            Err(
                LexErrorView {
                    kind: LexErrorKind::UnterminatedString,
                    message: msg_unterminated_string(line_of(s, i), col_of(s, i)),
                    location: loc_at(p, line_of(s, i), col_of(s, i), col_of(s, i)),
                },
            )
        } else {
            prepend_token(
                TokenView {
                    kind: TokenKind::String,
                    value: s.subrange(i + 1, j),
                    location: loc_at(p, line_of(s, i), col_of(s, i), col_of(s, j)),
                },
                spec_tokenize_from(s, p, j + 1),
            )
        }
    } else {
        match punct_kind(s[i]) {
            Some(k) => prepend_token(
                TokenView {
                    kind: k,
                    value: seq![s[i]],
                    location: loc_at(p, line_of(s, i), col_of(s, i), col_of(s, i)),
                },
                spec_tokenize_from(s, p, i + 1),
            ),
            None => Err(
                LexErrorView {
                    kind: LexErrorKind::UnknownCharacter,
                    message: msg_unexpected_char(s[i]),
                    location: loc_at(p, line_of(s, i), col_of(s, i), col_of(s, i)),
                },
            ),
        }
    }
}

#[via_fn]
proof fn spec_tokenize_from_dec(s: Seq<char>, p: Seq<char>, i: int) {
    if 0 <= i && i < s.len() {
        lemma_ident_end(s, i + 1);
        lemma_string_close(s, i + 1);
    }
}

/// The tokens of a whole character sequence, or the first failure.
pub open spec fn spec_tokenize(s: Seq<char>, p: Seq<char>) -> Result<
    Seq<TokenView>,
    LexErrorView,
> {
    spec_tokenize_from(s, p, 0)
}

// ---------------------------------------------------------------------------
// Gluing finished tokens onto the remaining scan.
// ---------------------------------------------------------------------------

/// The finished prefix of tokens followed by the rest of the scan.
pub open spec fn lex_glue(
    done: Seq<TokenView>,
    rest: Result<Seq<TokenView>, LexErrorView>,
) -> Result<Seq<TokenView>, LexErrorView> {
    match rest {
        Ok(ts) => Ok(done + ts),
        Err(e) => Err(e),
    }
}

proof fn lemma_glue_empty(r: Result<Seq<TokenView>, LexErrorView>)
    ensures
        lex_glue(Seq::empty(), r) == r,
{
    match r {
        Ok(ts) => {
            assert(Seq::<TokenView>::empty() + ts =~= ts);
        },
        Err(_) => {},
    }
}

proof fn lemma_glue_step(
    done: Seq<TokenView>,
    t: TokenView,
    rest: Result<Seq<TokenView>, LexErrorView>,
)
    ensures
        lex_glue(done, prepend_token(t, rest)) == lex_glue(done.push(t), rest),
{
    match rest {
        Ok(ts) => {
            assert(done + (seq![t] + ts) =~= done.push(t) + ts);
        },
        Err(_) => {},
    }
}

proof fn lemma_token_views_push(ts: Seq<Token>, t: Token)
    ensures
        token_views(ts.push(t)) == token_views(ts).push(t@),
{
    assert(token_views(ts.push(t)) =~= token_views(ts).push(t@));
}

// ---------------------------------------------------------------------------
// The executable tokenizer.
// ---------------------------------------------------------------------------

/// Scans source text into a token sequence. Single-use: construct it over
/// the text, run `lex` once, and read `output_tokens`.
pub struct Lexer {
    pub output_tokens: Vec<Token>,
    source_chars: Vec<char>,
    source_path: String,
}

impl Lexer {
    /// The characters being scanned (carriage returns already stripped).
    pub closed spec fn input(&self) -> Seq<char> {
        self.source_chars@
    }

    /// The file path carried into every location.
    pub closed spec fn path(&self) -> Seq<char> {
        self.source_path@
    }

    pub closed spec fn wf(&self) -> bool {
        self.source_chars@.len() < usize::MAX
    }

    /// The images of the tokens produced so far.
    pub closed spec fn tokens(&self) -> Seq<TokenView> {
        token_views(self.output_tokens@)
    }

    /// Readies a scan of `source_code`, stripping carriage returns, with
    /// `file_path` recorded for diagnostics.
    pub fn new(source_code: String, file_path: String) -> (r: Self)
        requires
            source_code@.len() < usize::MAX,
        ensures
            r.wf(),
            r.input() == source_code@.filter(|c: char| c != '\r'),
            r.path() == file_path@,
            r.tokens().len() == 0,
    {
        let n = source_code.as_str().unicode_len();
        let mut chars: Vec<char> = Vec::new();
        let mut k: usize = 0;
        proof {
            broadcast use vstd::seq_lib::group_filter_ensures;

            reveal(Seq::filter);
            assert(source_code@.subrange(0, 0) =~= Seq::<char>::empty());
        }
        while k < n
            invariant
                n == source_code@.len() < usize::MAX,
                k <= n,
                chars@ == source_code@.subrange(0, k as int).filter(|c: char| c != '\r'),
                chars@.len() <= k,
            decreases n - k,
        {
            let c = source_code.as_str().get_char(k);
            proof {
                reveal(Seq::filter);
                let pre = source_code@.subrange(0, k as int);
                let ext = source_code@.subrange(0, k as int + 1);
                assert(ext.drop_last() =~= pre);
                assert(ext.last() == c);
            }
            if c != '\r' {
                chars.push(c);
            }
            k = k + 1;
        }
        proof {
            assert(source_code@.subrange(0, n as int) =~= source_code@);
        }
        Lexer { output_tokens: Vec::new(), source_chars: chars, source_path: file_path }
    }
}

/// One cursor step: past the character at `pos`, keeping the line number
/// and the line start current.
fn step_pos(chars: &Vec<char>, pos: usize, line: usize, line_start: usize) -> (r: (usize, usize,
    usize))
    requires
        pos < chars@.len() < usize::MAX,
        line == line_of(chars@, pos as int),
        line_start == line_start_of(chars@, pos as int),
    ensures
        r.0 == pos + 1,
        r.1 == line_of(chars@, pos as int + 1),
        r.2 == line_start_of(chars@, pos as int + 1),
{
    proof {
        lemma_line_of_bounds(chars@, pos as int);
        lemma_line_start_bounds(chars@, pos as int);
    }
    if chars[pos] == '\n' {
        (pos + 1, line + 1, pos + 1)
    } else {
        (pos + 1, line, line_start)
    }
}

/// The punctuation kind and text of a character, if it has them.
fn punct_text(c: char) -> (r: Option<(TokenKind, &'static str)>)
    ensures
        match r {
            Some(p) => punct_kind(c) == Some(p.0) && p.1@ == seq![c],
            None => punct_kind(c) is None,
        },
{
    if c == ';' {
        proof {
            reveal_strlit(";");
            assert(";"@ =~= seq![';']);
        }
        Some((TokenKind::Semicolon, ";"))
    } else if c == ',' {
        proof {
            reveal_strlit(",");
            assert(","@ =~= seq![',']);
        }
        Some((TokenKind::Comma, ","))
    } else if c == '(' {
        proof {
            reveal_strlit("(");
            assert("("@ =~= seq!['(']);
        }
        Some((TokenKind::OParen, "("))
    } else if c == ')' {
        proof {
            reveal_strlit(")");
            assert(")"@ =~= seq![')']);
        }
        Some((TokenKind::CParen, ")"))
    } else if c == '{' {
        proof {
            reveal_strlit("{");
            assert("{"@ =~= seq!['{']);
        }
        Some((TokenKind::OCurly, "{"))
    } else if c == '}' {
        proof {
            reveal_strlit("}");
            assert("}"@ =~= seq!['}']);
        }
        Some((TokenKind::CCurly, "}"))
    } else {
        None
    }
}

impl Lexer {
    /// Scans the whole input into `output_tokens`: one token per construct
    /// in source order, ending in a single end-of-input token — or the
    /// first failure, with `output_tokens` left untouched.
    pub fn lex(&mut self) -> (r: Result<(), LexError>)
        requires
            old(self).wf(),
        ensures
            final(self).wf(),
            final(self).input() == old(self).input(),
            final(self).path() == old(self).path(),
            match r {
                Ok(_) => spec_tokenize(old(self).input(), old(self).path()) == Ok::<
                    Seq<TokenView>,
                    LexErrorView,
                >(final(self).tokens()),
                Err(e) => {
                    &&& spec_tokenize(old(self).input(), old(self).path()) == Err::<
                        Seq<TokenView>,
                        LexErrorView,
                    >(e@)
                    &&& final(self).tokens() == old(self).tokens()
                },
            },
    {
        let ghost s = self.source_chars@;
        let ghost p = self.source_path@;
        let mut out: Vec<Token> = Vec::new();
        let mut pos: usize = 0;
        let mut line: usize = 1;
        let mut line_start: usize = 0;
        proof {
            lemma_glue_empty(spec_tokenize_from(s, p, 0));
            assert(token_views(out@) =~= Seq::<TokenView>::empty());
        }
        while pos < self.source_chars.len()
            invariant
                *self == *old(self),
                old(self).wf(),
                s == self.source_chars@,
                p == self.source_path@,
                pos <= s.len(),
                line == line_of(s, pos as int),
                line_start == line_start_of(s, pos as int),
                lex_glue(token_views(out@), spec_tokenize_from(s, p, pos as int))
                    == spec_tokenize_from(s, p, 0),
            decreases s.len() - pos,
        {
            proof {
                lemma_line_start_bounds(s, pos as int);
            }
            let is_comment = line_start + 1 < self.source_chars.len()
                && self.source_chars[line_start] == '/' && self.source_chars[line_start + 1]
                == '/';
            if is_comment {
                let st = step_pos(&self.source_chars, pos, line, line_start);
                pos = st.0;
                line = st.1;
                line_start = st.2;
            } else {
                let c = self.source_chars[pos];
                if is_whitespace_char(c) {
                    let st = step_pos(&self.source_chars, pos, line, line_start);
                    pos = st.0;
                    line = st.1;
                    line_start = st.2;
                } else if is_id_start(c) {
                    let start = pos;
                    let start_col = pos - line_start + 1;
                    let sline = line;
                    let mut value = String::new();
                    push_char(&mut value, c);
                    let mut end_col = pos - line_start + 1;
                    let st = step_pos(&self.source_chars, pos, line, line_start);
                    pos = st.0;
                    line = st.1;
                    line_start = st.2;
                    proof {
                        lemma_ident_end(s, start as int + 1);
                        assert(value@ =~= s.subrange(start as int, pos as int));
                    }
                    let ghost j = ident_end(s, start as int + 1);
                    while pos < self.source_chars.len() && is_id_continue(self.source_chars[pos])
                        invariant
                            s == self.source_chars@,
                            s.len() < usize::MAX,
                            start < pos <= s.len(),
                            line == line_of(s, pos as int),
                            line_start == line_start_of(s, pos as int),
                            j == ident_end(s, pos as int),
                            value@ == s.subrange(start as int, pos as int),
                            end_col == col_of(s, pos as int - 1),
                        decreases s.len() - pos,
                    {
                        let cc = self.source_chars[pos];
                        push_char(&mut value, cc);
                        proof {
                            lemma_line_start_bounds(s, pos as int);
                            assert(s.subrange(start as int, pos as int + 1) =~= s.subrange(
                                start as int,
                                pos as int,
                            ).push(cc));
                        }
                        end_col = pos - line_start + 1;
                        let st2 = step_pos(&self.source_chars, pos, line, line_start);
                        pos = st2.0;
                        line = st2.1;
                        line_start = st2.2;
                    }
                    let kind = classify(&value);
                    let tok = Token {
                        kind,
                        value,
                        location: Location {
                            source_code_path: self.source_path.clone(),
                            line_number: sline,
                            start_col,
                            end_col,
                        },
                    };
                    proof {
                        assert(pos as int == j);
                        lemma_glue_step(token_views(out@), tok@, spec_tokenize_from(s, p, j));
                        lemma_token_views_push(out@, tok);
                    }
                    out.push(tok);
                } else if c == '"' {
                    let start = pos;
                    let start_col = pos - line_start + 1;
                    let sline = line;
                    let mut value = String::new();
                    let st = step_pos(&self.source_chars, pos, line, line_start);
                    pos = st.0;
                    line = st.1;
                    line_start = st.2;
                    proof {
                        lemma_string_close(s, start as int + 1);
                        assert(value@ =~= s.subrange(start as int + 1, pos as int));
                    }
                    let ghost j = string_close(s, start as int + 1);
                    while pos < self.source_chars.len() && self.source_chars[pos] != '"'
                        invariant
                            s == self.source_chars@,
                            s.len() < usize::MAX,
                            start < pos <= s.len(),
                            line == line_of(s, pos as int),
                            line_start == line_start_of(s, pos as int),
                            j == string_close(s, pos as int),
                            value@ == s.subrange(start as int + 1, pos as int),
                        decreases s.len() - pos,
                    {
                        let cc = self.source_chars[pos];
                        push_char(&mut value, cc);
                        proof {
                            assert(s.subrange(start as int + 1, pos as int + 1) =~= s.subrange(
                                start as int + 1,
                                pos as int,
                            ).push(cc));
                        }
                        let st2 = step_pos(&self.source_chars, pos, line, line_start);
                        pos = st2.0;
                        line = st2.1;
                        line_start = st2.2;
                    }
                    if pos == self.source_chars.len() {
                        let msg = build_msg_unterminated_string(sline, start_col);
                        let e = LexError {
                            kind: LexErrorKind::UnterminatedString,
                            message: msg,
                            location: Location {
                                source_code_path: self.source_path.clone(),
                                line_number: sline,
                                start_col,
                                end_col: start_col,
                            },
                        };
                        proof {
                            assert(j == string_close(s, pos as int));
                        }
                        return Err(e);
                    }
                    proof {
                        lemma_line_start_bounds(s, pos as int);
                        assert(pos as int == j);
                    }
                    let end_col = pos - line_start + 1;
                    let st3 = step_pos(&self.source_chars, pos, line, line_start);
                    pos = st3.0;
                    line = st3.1;
                    line_start = st3.2;
                    let tok = Token {
                        kind: TokenKind::String,
                        value,
                        location: Location {
                            source_code_path: self.source_path.clone(),
                            line_number: sline,
                            start_col,
                            end_col,
                        },
                    };
                    proof {
                        lemma_glue_step(token_views(out@), tok@, spec_tokenize_from(s, p, j + 1));
                        lemma_token_views_push(out@, tok);
                    }
                    out.push(tok);
                } else {
                    match punct_text(c) {
                        Some(pair) => {
                            let start_col = pos - line_start + 1;
                            let tok = Token {
                                kind: pair.0,
                                value: String::from_str(pair.1),
                                location: Location {
                                    source_code_path: self.source_path.clone(),
                                    line_number: line,
                                    start_col,
                                    end_col: start_col,
                                },
                            };
                            proof {
                                lemma_glue_step(
                                    token_views(out@),
                                    tok@,
                                    spec_tokenize_from(s, p, pos as int + 1),
                                );
                                lemma_token_views_push(out@, tok);
                            }
                            out.push(tok);
                            let st = step_pos(&self.source_chars, pos, line, line_start);
                            pos = st.0;
                            line = st.1;
                            line_start = st.2;
                        },
                        None => {
                            let start_col = pos - line_start + 1;
                            let msg = build_msg_unexpected_char(c);
                            let e = LexError {
                                kind: LexErrorKind::UnknownCharacter,
                                message: msg,
                                location: Location {
                                    source_code_path: self.source_path.clone(),
                                    line_number: line,
                                    start_col,
                                    end_col: start_col,
                                },
                            };
                            return Err(e);
                        },
                    }
                }
            }
        }
        proof {
            lemma_line_start_bounds(s, pos as int);
        }
        let eof_col = pos - line_start + 1;
        let tok = Token {
            kind: TokenKind::Eof,
            value: String::new(),
            location: Location {
                source_code_path: self.source_path.clone(),
                line_number: line,
                start_col: eof_col,
                end_col: eof_col,
            },
        };
        proof {
            lemma_token_views_push(out@, tok);
            assert(token_views(out@) + seq![tok@] =~= token_views(out@).push(tok@));
        }
        out.push(tok);
        self.output_tokens = out;
        Ok(())
    }

    /// Hands the produced tokens out, consuming the scanner.
    pub fn into_tokens(self) -> (r: Vec<Token>)
        ensures
            token_views(r@) == self.tokens(),
    {
        self.output_tokens
    }
}

} // verus!
