use crate::lexer::{
    classify_word, ident_end, import_keyword, lemma_ident_end, lemma_string_close,
    on_comment_line, punct_kind, spec_tokenize, spec_tokenize_from, string_close, void_type,
};
use crate::text::{
    char_is_whitespace, col_of, id_continue, id_start, lemma_line_lookup,
    lemma_line_start_bounds, lemma_same_line, line_of, start_of_line,
};
use crate::tokens::{wf_token_seq, TokenKind, TokenView};
use vstd::prelude::*;

verus! {

// ---------------------------------------------------------------------------
// Laws of the tokenizer and of the parser. Each public proof function here
// states one property of the library as a whole, over the same mathematical
// models the executable functions are specified against.
// ---------------------------------------------------------------------------

/// The token kinds whose text is read straight off one line of the source:
/// keywords, type names, and punctuation.
pub open spec fn round_trip_kind(k: TokenKind) -> bool {
    ||| k == TokenKind::Keyword
    ||| k == TokenKind::Type
    ||| k == TokenKind::OParen
    ||| k == TokenKind::CParen
    ||| k == TokenKind::OCurly
    ||| k == TokenKind::CCurly
    ||| k == TokenKind::Semicolon
    ||| k == TokenKind::Comma
}

/// The token's text is the exact source substring at columns
/// `[start_col, end_col]` of its line.
pub open spec fn token_matches_source(s: Seq<char>, t: TokenView) -> bool {
    let ls = start_of_line(s, t.location.line);
    &&& 1 <= t.location.start_col <= t.location.end_col
    &&& 0 <= ls
    &&& ls + t.location.end_col <= s.len()
    &&& t.value == s.subrange(ls + t.location.start_col - 1, ls + t.location.end_col)
}

proof fn lemma_round_trip_from(s: Seq<char>, p: Seq<char>, i: int)
    requires
        0 <= i <= s.len(),
    ensures
        match spec_tokenize_from(s, p, i) {
            Ok(ts) => forall|k: int|
                0 <= k < ts.len() && round_trip_kind(#[trigger] ts[k].kind)
                    ==> token_matches_source(s, ts[k]),
            Err(_) => true,
        },
    decreases s.len() - i,
{
    lemma_line_start_bounds(s, i);
    if i >= s.len() {
    } else if on_comment_line(s, i) {
        lemma_round_trip_from(s, p, i + 1);
    } else if char_is_whitespace(s[i]) {
        lemma_round_trip_from(s, p, i + 1);
    } else if id_start(s[i]) {
        lemma_ident_end(s, i + 1);
        let j = ident_end(s, i + 1);
        lemma_round_trip_from(s, p, j);
        let w = s.subrange(i, j);
        match spec_tokenize_from(s, p, j) {
            Ok(tail) => {
                let t0 = TokenView {
                    kind: classify_word(w),
                    value: w,
                    location: crate::lexer::loc_at(
                        p,
                        line_of(s, i),
                        col_of(s, i),
                        col_of(s, j - 1),
                    ),
                };
                let ts = seq![t0] + tail;
                if round_trip_kind(t0.kind) {
                    // The word is one of the two concrete table entries, so
                    // none of its characters is a newline.
                    assert(w == import_keyword() || w == void_type());
                    assert forall|m: int| i <= m < j implies s[m] != '\n' by {
                        assert(s[m] == w[m - i]);
                    }
                    lemma_same_line(s, i, j - 1);
                    lemma_line_lookup(s, i);
                    assert(token_matches_source(s, t0));
                }
                assert forall|k: int|
                    0 <= k < ts.len() && round_trip_kind(#[trigger] ts[k].kind)
                        implies token_matches_source(s, ts[k]) by {
                    if k > 0 {
                        assert(ts[k] == tail[k - 1]);
                    }
                }
            },
            Err(_) => {},
        }
    } else if s[i] == '"' {
        lemma_string_close(s, i + 1);
        let j = string_close(s, i + 1);
        if j < s.len() {
            lemma_round_trip_from(s, p, j + 1);
            match spec_tokenize_from(s, p, j + 1) {
                Ok(tail) => {
                    let t0 = TokenView {
                        kind: TokenKind::String,
                        value: s.subrange(i + 1, j),
                        location: crate::lexer::loc_at(
                            p,
                            line_of(s, i),
                            col_of(s, i),
                            col_of(s, j),
                        ),
                    };
                    let ts = seq![t0] + tail;
                    assert forall|k: int|
                        0 <= k < ts.len() && round_trip_kind(#[trigger] ts[k].kind)
                            implies token_matches_source(s, ts[k]) by {
                        if k > 0 {
                            assert(ts[k] == tail[k - 1]);
                        }
                    }
                },
                Err(_) => {},
            }
        }
    } else {
        match punct_kind(s[i]) {
            Some(pk) => {
                lemma_round_trip_from(s, p, i + 1);
                match spec_tokenize_from(s, p, i + 1) {
                    Ok(tail) => {
                        let t0 = TokenView {
                            kind: pk,
                            value: seq![s[i]],
                            location: crate::lexer::loc_at(
                                p,
                                line_of(s, i),
                                col_of(s, i),
                                col_of(s, i),
                            ),
                        };
                        let ts = seq![t0] + tail;
                        lemma_line_lookup(s, i);
                        assert(t0.value =~= s.subrange(i, i + 1));
                        assert(token_matches_source(s, t0));
                        assert forall|k: int|
                            0 <= k < ts.len() && round_trip_kind(#[trigger] ts[k].kind)
                                implies token_matches_source(s, ts[k]) by {
                            if k > 0 {
                                assert(ts[k] == tail[k - 1]);
                            }
                        }
                    },
                    Err(_) => {},
                }
            },
            None => {},
        }
    }
}

/// Token round-trip: every keyword, type-name and punctuation token a scan
/// produces carries exactly the source text standing at its recorded line
/// and columns.
pub proof fn lemma_token_round_trip(s: Seq<char>, p: Seq<char>, ts: Seq<TokenView>, k: int)
    requires
        spec_tokenize(s, p) == Ok::<Seq<TokenView>, crate::diag::LexErrorView>(ts),
        0 <= k < ts.len(),
        round_trip_kind(ts[k].kind),
    ensures
        token_matches_source(s, ts[k]),
{
    lemma_round_trip_from(s, p, 0);
}

proof fn lemma_tokenize_wf_from(s: Seq<char>, p: Seq<char>, i: int)
    requires
        0 <= i <= s.len(),
    ensures
        match spec_tokenize_from(s, p, i) {
            Ok(ts) => wf_token_seq(ts),
            Err(_) => true,
        },
    decreases s.len() - i,
{
    if i >= s.len() {
    } else if on_comment_line(s, i) || char_is_whitespace(s[i]) {
        lemma_tokenize_wf_from(s, p, i + 1);
    } else if id_start(s[i]) {
        lemma_ident_end(s, i + 1);
        let j = ident_end(s, i + 1);
        lemma_tokenize_wf_from(s, p, j);
        match spec_tokenize_from(s, p, j) {
            Ok(tail) => {
                match spec_tokenize_from(s, p, i) {
                    Ok(ts) => {
                        assert(ts[ts.len() - 1] == tail[tail.len() - 1]);
                        assert forall|k: int| 0 <= k < ts.len() - 1 implies (
                        #[trigger] ts[k].kind) != TokenKind::Eof by {
                            if k > 0 {
                                assert(ts[k] == tail[k - 1]);
                            }
                        }
                    },
                    Err(_) => {},
                }
            },
            Err(_) => {},
        }
    } else if s[i] == '"' {
        lemma_string_close(s, i + 1);
        let j = string_close(s, i + 1);
        if j < s.len() {
            lemma_tokenize_wf_from(s, p, j + 1);
            match spec_tokenize_from(s, p, j + 1) {
                Ok(tail) => {
                    match spec_tokenize_from(s, p, i) {
                        Ok(ts) => {
                            assert(ts[ts.len() - 1] == tail[tail.len() - 1]);
                            assert forall|k: int| 0 <= k < ts.len() - 1 implies (
                            #[trigger] ts[k].kind) != TokenKind::Eof by {
                                if k > 0 {
                                    assert(ts[k] == tail[k - 1]);
                                }
                            }
                        },
                        Err(_) => {},
                    }
                },
                Err(_) => {},
            }
        }
    } else {
        match punct_kind(s[i]) {
            Some(_) => {
                lemma_tokenize_wf_from(s, p, i + 1);
                match spec_tokenize_from(s, p, i + 1) {
                    Ok(tail) => {
                        match spec_tokenize_from(s, p, i) {
                            Ok(ts) => {
                                assert(ts[ts.len() - 1] == tail[tail.len() - 1]);
                                assert forall|k: int| 0 <= k < ts.len() - 1 implies (
                                #[trigger] ts[k].kind) != TokenKind::Eof by {
                                    if k > 0 {
                                        assert(ts[k] == tail[k - 1]);
                                    }
                                }
                            },
                            Err(_) => {},
                        }
                    },
                    Err(_) => {},
                }
            },
            None => {},
        }
    }
}

/// Completeness, first half: every accepted scan ends in exactly one
/// end-of-input token — it stands last and nowhere else. This is also
/// exactly the well-formedness the parser asks of its input.
pub proof fn lemma_tokenize_wf(s: Seq<char>, p: Seq<char>, ts: Seq<TokenView>)
    requires
        spec_tokenize(s, p) == Ok::<Seq<TokenView>, crate::diag::LexErrorView>(ts),
    ensures
        wf_token_seq(ts),
        ts[ts.len() - 1].kind == TokenKind::Eof,
        forall|k: int| 0 <= k < ts.len() - 1 ==> (#[trigger] ts[k].kind) != TokenKind::Eof,
{
    lemma_tokenize_wf_from(s, p, 0);
}

// ---------------------------------------------------------------------------
// Completeness, second half: no character is dropped silently.
// ---------------------------------------------------------------------------

/// The source characters a scan may not drop: everything that is neither
/// whitespace nor on a comment line, in order, from position `i` on.
pub open spec fn relevant_content(s: Seq<char>, i: int) -> Seq<char>
    decreases s.len() - i,
    when 0 <= i <= s.len()
{
    if i >= s.len() {
        Seq::empty()
    } else if on_comment_line(s, i) || char_is_whitespace(s[i]) {
        relevant_content(s, i + 1)
    } else {
        seq![s[i]] + relevant_content(s, i + 1)
    }
}

/// The concatenation of all token texts, in order.
pub open spec fn concat_values(ts: Seq<TokenView>) -> Seq<char>
    decreases ts.len(),
{
    if ts.len() == 0 {
        Seq::empty()
    } else {
        ts[0].value + concat_values(ts.subrange(1, ts.len() as int))
    }
}

proof fn lemma_concat_prepend(t: TokenView, ts: Seq<TokenView>)
    ensures
        concat_values(seq![t] + ts) == t.value + concat_values(ts),
{
    let whole = seq![t] + ts;
    assert(whole[0] == t);
    assert(whole.subrange(1, whole.len() as int) =~= ts);
}

/// Identifier characters are never line breaks and never whitespace.
pub open spec fn word_chars_solid(s: Seq<char>) -> bool {
    forall|k: int|
        0 <= k < s.len() && (id_start(#[trigger] s[k]) || id_continue(s[k])) ==> s[k] != '\n'
            && !char_is_whitespace(s[k])
}

proof fn lemma_relevant_run(s: Seq<char>, a: int, b: int)
    requires
        0 <= a <= b <= s.len(),
        forall|k: int| a <= k < b ==> !(#[trigger] on_comment_line(s, k)),
        forall|k: int| a <= k < b ==> !char_is_whitespace(#[trigger] s[k]),
    ensures
        relevant_content(s, a) == s.subrange(a, b) + relevant_content(s, b),
    decreases b - a,
{
    if a == b {
        assert(s.subrange(a, b) =~= Seq::<char>::empty());
        assert(Seq::<char>::empty() + relevant_content(s, b) =~= relevant_content(s, b));
    } else {
        lemma_relevant_run(s, a + 1, b);
        assert(seq![s[a]] + (s.subrange(a + 1, b) + relevant_content(s, b)) =~= s.subrange(a, b)
            + relevant_content(s, b));
    }
}

proof fn lemma_content_from(s: Seq<char>, p: Seq<char>, i: int)
    requires
        0 <= i <= s.len(),
        forall|k: int| 0 <= k < s.len() ==> (#[trigger] s[k]) != '"',
        word_chars_solid(s),
    ensures
        match spec_tokenize_from(s, p, i) {
            Ok(ts) => concat_values(ts) == relevant_content(s, i),
            Err(_) => true,
        },
    decreases s.len() - i,
{
    if i >= s.len() {
        let ts = seq![
            TokenView {
                kind: TokenKind::Eof,
                value: Seq::empty(),
                location: crate::lexer::loc_at(p, line_of(s, i), col_of(s, i), col_of(s, i)),
            },
        ];
        let rest = ts.subrange(1, 1);
        assert(rest =~= Seq::<TokenView>::empty());
        assert(concat_values(rest) =~= Seq::<char>::empty());
        assert(concat_values(ts) =~= Seq::<char>::empty());
    } else if on_comment_line(s, i) || char_is_whitespace(s[i]) {
        lemma_content_from(s, p, i + 1);
    } else if id_start(s[i]) {
        lemma_ident_end(s, i + 1);
        let j = ident_end(s, i + 1);
        lemma_content_from(s, p, j);
        match spec_tokenize_from(s, p, j) {
            Ok(tail) => {
                let w = s.subrange(i, j);
                let t0 = TokenView {
                    kind: classify_word(w),
                    value: w,
                    location: crate::lexer::loc_at(
                        p,
                        line_of(s, i),
                        col_of(s, i),
                        col_of(s, j - 1),
                    ),
                };
                lemma_concat_prepend(t0, tail);
                // Within the run no character is a newline, so the whole run
                // stays on the current, non-comment line.
                assert forall|m: int| i <= m < j implies s[m] != '\n' && !char_is_whitespace(
                    s[m],
                ) by {
                    assert(id_start(s[m]) || id_continue(s[m]));
                }
                assert forall|m: int| i <= m < j implies !(#[trigger] on_comment_line(s, m)) by {
                    lemma_same_line(s, i, m);
                }
                lemma_relevant_run(s, i, j);
            },
            Err(_) => {},
        }
    } else if s[i] == '"' {
        assert(false);
    } else {
        match punct_kind(s[i]) {
            Some(pk) => {
                lemma_content_from(s, p, i + 1);
                match spec_tokenize_from(s, p, i + 1) {
                    Ok(tail) => {
                        let t0 = TokenView {
                            kind: pk,
                            value: seq![s[i]],
                            location: crate::lexer::loc_at(
                                p,
                                line_of(s, i),
                                col_of(s, i),
                                col_of(s, i),
                            ),
                        };
                        lemma_concat_prepend(t0, tail);
                        assert(seq![s[i]] + relevant_content(s, i + 1) == relevant_content(s, i));
                    },
                    Err(_) => {},
                }
            },
            None => {},
        }
    }
}

/// Completeness, second half: for source without string literals (whose
/// quotes are deliberately dropped from token texts), concatenating all
/// token texts in order reproduces every character that is neither
/// whitespace nor on a comment line. The word-character hypotheses record
/// that identifier characters are not line breaks or whitespace, which
/// holds of the standard classifier but is not visible to the verifier.
pub proof fn lemma_tokenize_preserves_content(s: Seq<char>, p: Seq<char>, ts: Seq<TokenView>)
    requires
        spec_tokenize(s, p) == Ok::<Seq<TokenView>, crate::diag::LexErrorView>(ts),
        forall|k: int| 0 <= k < s.len() ==> (#[trigger] s[k]) != '"',
        word_chars_solid(s),
    ensures
        concat_values(ts) == relevant_content(s, 0),
{
    lemma_content_from(s, p, 0);
}

// ---------------------------------------------------------------------------
// Determinism of the parser.
// ---------------------------------------------------------------------------

/// Determinism: the abstract syntax is a mathematical function of the token
/// sequence — parsing equal token sequences yields structurally equal
/// results, and the executable parser is specified to return exactly this
/// function's value.
pub proof fn lemma_parse_deterministic(t1: Seq<TokenView>, t2: Seq<TokenView>)
    requires
        t1 == t2,
    ensures
        crate::parser::spec_parse(t1) == crate::parser::spec_parse(t2),
{
}

} // verus!
