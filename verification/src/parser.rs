use crate::ast::{
    boxed_kind_views, boxed_node_views, kind_view, lemma_boxed_kind_views_push, node_view,
    node_views, Node, NodeKind, NodeKindView, NodeView,
};
use crate::diag::{
    build_msg_expected, build_msg_expected_either, build_msg_keyword_unimplemented,
    build_msg_token_unimplemented, build_msg_variable_unimplemented, msg_expected,
    msg_expected_either, msg_keyword_unimplemented, msg_token_unimplemented,
    msg_variable_unimplemented, ParseError, ParseErrorKind, ParseErrorView,
};
use crate::lexer::{import_keyword, keyword_string};
use crate::tokens::{token_views, wf_token_seq, Token, TokenKind, TokenView};
use vstd::prelude::*;

verus! {

/// The keyword of the literal print statement.
pub open spec fn print_keyword() -> Seq<char> {
    "print"@
}

/// A parse failure value.
pub open spec fn perr(
    kind: ParseErrorKind,
    message: Seq<char>,
    location: crate::tokens::LocationView,
) -> ParseErrorView {
    ParseErrorView { kind, message, location }
}

// ---------------------------------------------------------------------------
// The mathematical parser.
//
// Each function walks the token sequence by index; `cur` is always the index
// of the last token already consumed, so `cur + 1` is the next token to
// look at. Every function assumes a well-formed token sequence (exactly one
// end-of-input token, standing last), which keeps every lookahead in range.
// ---------------------------------------------------------------------------

/// Consumes a comma-separated parameter list (`Type Identifier` pairs) after
/// the opening parenthesis at `cur`. Returns the index of the last token of
/// the list (the parenthesis itself when the list is empty), so that the
/// closing parenthesis stands at the returned index plus one. The parsed
/// pairs are validated and then dropped: declarations do not store them yet.
pub open spec fn spec_parse_params(toks: Seq<TokenView>, cur: int) -> Result<int, ParseErrorView>
    decreases toks.len() - cur,
    when 0 <= cur && cur + 1 < toks.len() && wf_token_seq(toks)
    via spec_parse_params_dec
{
    if toks[cur + 1].kind == TokenKind::CParen {
        Ok(cur)
    } else if toks[cur + 1].kind != TokenKind::Type {
        Err(
            perr(
                ParseErrorKind::MissingExpectedKind,
                msg_expected(TokenKind::Type, toks[cur].value, toks[cur + 1].kind),
                toks[cur + 1].location,
            ),
        )
    } else if toks[cur + 2].kind != TokenKind::Identifier {
        Err(
            perr(
                ParseErrorKind::MissingExpectedKind,
                msg_expected(TokenKind::Identifier, toks[cur + 1].value, toks[cur + 2].kind),
                toks[cur + 2].location,
            ),
        )
    } else {
        let next = if toks[cur + 3].kind == TokenKind::Comma {
            cur + 3
        } else {
            cur + 2
        };
        spec_parse_params(toks, next)
    }
}

#[via_fn]
proof fn spec_parse_params_dec(toks: Seq<TokenView>, cur: int) {
}

/// Under the same conditions the parser runs with, a finished parameter
/// list ends just before its closing parenthesis.
pub proof fn lemma_parse_params_bounds(toks: Seq<TokenView>, cur: int)
    ensures
        (0 <= cur && cur + 1 < toks.len() && wf_token_seq(toks)) ==> match spec_parse_params(
            toks,
            cur,
        ) {
            Ok(close) => cur <= close && close + 1 < toks.len() && toks[close + 1].kind
                == TokenKind::CParen,
            Err(_) => true,
        },
    decreases toks.len() - cur,
{
    if 0 <= cur && cur + 1 < toks.len() && wf_token_seq(toks) {
        if toks[cur + 1].kind == TokenKind::CParen {
        } else if toks[cur + 1].kind != TokenKind::Type {
        } else if toks[cur + 2].kind != TokenKind::Identifier {
        } else {
            let next = if toks[cur + 3].kind == TokenKind::Comma {
                cur + 3
            } else {
                cur + 2
            };
            lemma_parse_params_bounds(toks, next);
        }
    }
}

/// Consumes a comma-separated argument list (identifiers and string
/// literals) after the opening parenthesis at `cur`; same index convention
/// as `spec_parse_params`, returning the arguments as well.
pub open spec fn spec_parse_args(toks: Seq<TokenView>, cur: int) -> Result<
    (Seq<NodeKindView>, int),
    ParseErrorView,
>
    decreases toks.len() - cur,
    when 0 <= cur && cur + 1 < toks.len() && wf_token_seq(toks)
    via spec_parse_args_dec
{
    if toks[cur + 1].kind == TokenKind::CParen {
        Ok((Seq::empty(), cur))
    } else if toks[cur + 1].kind != TokenKind::Identifier && toks[cur + 1].kind
        != TokenKind::String {
        Err(
            perr(
                ParseErrorKind::UnexpectedTokenKind,
                msg_expected_either("Identifier, String"@, toks[cur].value, toks[cur + 1].kind),
                toks[cur + 1].location,
            ),
        )
    } else {
        let arg = if toks[cur + 1].kind == TokenKind::Identifier {
            NodeKindView::Identifier(toks[cur + 1].value)
        } else {
            NodeKindView::String(toks[cur + 1].value)
        };
        let next = if toks[cur + 2].kind == TokenKind::Comma {
            cur + 2
        } else {
            cur + 1
        };
        match spec_parse_args(toks, next) {
            Ok((rest, close)) => Ok((seq![arg] + rest, close)),
            Err(e) => Err(e),
        }
    }
}

#[via_fn]
proof fn spec_parse_args_dec(toks: Seq<TokenView>, cur: int) {
}

/// Under the same conditions the parser runs with, a finished argument list
/// ends just before its closing parenthesis.
pub proof fn lemma_parse_args_bounds(toks: Seq<TokenView>, cur: int)
    ensures
        (0 <= cur && cur + 1 < toks.len() && wf_token_seq(toks)) ==> match spec_parse_args(
            toks,
            cur,
        ) {
            Ok((args, close)) => cur <= close && close + 1 < toks.len() && toks[close + 1].kind
                == TokenKind::CParen,
            Err(_) => true,
        },
    decreases toks.len() - cur,
{
    if 0 <= cur && cur + 1 < toks.len() && wf_token_seq(toks) {
        if toks[cur + 1].kind == TokenKind::CParen {
        } else if toks[cur + 1].kind != TokenKind::Identifier && toks[cur + 1].kind
            != TokenKind::String {
        } else {
            let next = if toks[cur + 2].kind == TokenKind::Comma {
                cur + 2
            } else {
                cur + 1
            };
            lemma_parse_args_bounds(toks, next);
        }
    }
}

/// The index of the first closing brace at or after `k`: the end of a
/// function body. Brace nesting is not tracked; the first closing brace
/// closes the body. Reaching the end of input first is a failure.
pub open spec fn spec_body_end(toks: Seq<TokenView>, k: int) -> Result<int, ParseErrorView>
    decreases toks.len() - k,
    when 0 <= k < toks.len() && wf_token_seq(toks)
    via spec_body_end_dec
{
    if toks[k].kind == TokenKind::CCurly {
        Ok(k)
    } else if toks[k].kind == TokenKind::Eof {
        Err(
            perr(
                ParseErrorKind::MissingExpectedKind,
                msg_expected(TokenKind::CCurly, toks[k].value, toks[k].kind),
                toks[k].location,
            ),
        )
    } else {
        spec_body_end(toks, k + 1)
    }
}

#[via_fn]
proof fn spec_body_end_dec(toks: Seq<TokenView>, k: int) {
}

/// A found body end is a closing brace standing before the end marker.
pub proof fn lemma_body_end_bounds(toks: Seq<TokenView>, k: int)
    ensures
        (0 <= k < toks.len() && wf_token_seq(toks)) ==> match spec_body_end(toks, k) {
            Ok(r) => k <= r && r < toks.len() - 1 && toks[r].kind == TokenKind::CCurly,
            Err(_) => true,
        },
    decreases toks.len() - k,
{
    if 0 <= k < toks.len() && wf_token_seq(toks) {
        if toks[k].kind == TokenKind::CCurly {
        } else if toks[k].kind == TokenKind::Eof {
        } else {
            lemma_body_end_bounds(toks, k + 1);
        }
    }
}

/// The end-of-input token appended to a sliced-out function body, placed at
/// the closing brace's coordinates.
pub open spec fn body_eof_token(at: TokenView) -> TokenView {
    TokenView { kind: TokenKind::Eof, value: Seq::empty(), location: at.location }
}

/// The token slice a function body is parsed from: everything strictly
/// between the braces, with its own end-of-input token appended.
pub open spec fn body_slice(toks: Seq<TokenView>, start: int, rbrace: int) -> Seq<TokenView> {
    toks.subrange(start, rbrace).push(body_eof_token(toks[rbrace]))
}

/// A node and the nodes after it, unless those fail.
pub open spec fn prepend_node(n: NodeView, r: Result<Seq<NodeView>, ParseErrorView>) -> Result<
    Seq<NodeView>,
    ParseErrorView,
> {
    match r {
        Ok(ns) => Ok(seq![n] + ns),
        Err(e) => Err(e),
    }
}

/// The abstract syntax of `toks` from position `i` on, or the first
/// failure. This is the ground truth the executable parser is proved
/// against: one statement per dispatch on the token at the cursor, with a
/// function body parsed by re-running the same definition on its slice.
pub open spec fn spec_parse_from(toks: Seq<TokenView>, i: int) -> Result<
    Seq<NodeView>,
    ParseErrorView,
>
    decreases toks.len(), toks.len() - i,
    when 0 <= i < toks.len() && wf_token_seq(toks)
    via spec_parse_from_dec
{
    if toks[i].kind == TokenKind::Eof {
        Ok(Seq::empty())
    } else if toks[i].kind == TokenKind::Keyword {
        if toks[i].value == import_keyword() {
            if toks[i + 1].kind != TokenKind::Identifier {
                Err(
                    perr(
                        ParseErrorKind::MissingExpectedKind,
                        msg_expected(TokenKind::Identifier, toks[i].value, toks[i + 1].kind),
                        toks[i + 1].location,
                    ),
                )
            } else if toks[i + 2].kind != TokenKind::Semicolon {
                Err(
                    perr(
                        ParseErrorKind::MissingExpectedKind,
                        msg_expected(TokenKind::Semicolon, toks[i + 1].value, toks[i + 2].kind),
                        toks[i + 2].location,
                    ),
                )
            } else {
                prepend_node(
                    NodeView {
                        kind: NodeKindView::Include(toks[i + 1].value),
                        location: toks[i + 2].location,
                    },
                    spec_parse_from(toks, i + 3),
                )
            }
        } else if toks[i].value == print_keyword() {
            if toks[i + 1].kind != TokenKind::String {
                Err(
                    perr(
                        ParseErrorKind::MissingExpectedKind,
                        msg_expected(TokenKind::String, toks[i].value, toks[i + 1].kind),
                        toks[i + 1].location,
                    ),
                )
            } else if toks[i + 2].kind != TokenKind::Semicolon {
                Err(
                    perr(
                        ParseErrorKind::MissingExpectedKind,
                        msg_expected(TokenKind::Semicolon, toks[i + 1].value, toks[i + 2].kind),
                        toks[i + 2].location,
                    ),
                )
            } else {
                prepend_node(
                    NodeView {
                        kind: NodeKindView::Print(toks[i + 1].value),
                        location: toks[i + 2].location,
                    },
                    spec_parse_from(toks, i + 3),
                )
            }
        } else {
            Err(
                perr(
                    ParseErrorKind::UnimplementedConstruct,
                    msg_keyword_unimplemented(toks[i].value),
                    toks[i].location,
                ),
            )
        }
    } else if toks[i].kind == TokenKind::Type {
        if toks[i + 1].kind != TokenKind::Identifier {
            Err(
                perr(
                    ParseErrorKind::MissingExpectedKind,
                    msg_expected(TokenKind::Identifier, toks[i].value, toks[i + 1].kind),
                    toks[i + 1].location,
                ),
            )
        } else if toks[i + 2].kind == TokenKind::Identifier {
            Err(
                perr(
                    ParseErrorKind::UnimplementedConstruct,
                    msg_variable_unimplemented(),
                    toks[i + 2].location,
                ),
            )
        } else if toks[i + 2].kind != TokenKind::OParen {
            Err(
                perr(
                    ParseErrorKind::UnexpectedTokenKind,
                    msg_expected_either("OParen, Identifier"@, toks[i + 1].value, toks[i + 2].kind),
                    toks[i + 2].location,
                ),
            )
        } else {
            match spec_parse_params(toks, i + 2) {
                Err(e) => Err(e),
                Ok(close) => {
                    if toks[close + 2].kind != TokenKind::OCurly {
                        Err(
                            perr(
                                ParseErrorKind::MissingExpectedKind,
                                msg_expected(
                                    TokenKind::OCurly,
                                    toks[close + 1].value,
                                    toks[close + 2].kind,
                                ),
                                toks[close + 2].location,
                            ),
                        )
                    } else {
                        match spec_body_end(toks, close + 3) {
                            Err(e) => Err(e),
                            Ok(rbrace) => match spec_parse_from(
                                body_slice(toks, close + 3, rbrace),
                                0,
                            ) {
                                Err(e) => Err(e),
                                Ok(body) => prepend_node(
                                    NodeView {
                                        kind: NodeKindView::FuncDecl(
                                            toks[i].value,
                                            toks[i + 1].value,
                                            body,
                                        ),
                                        location: toks[rbrace].location,
                                    },
                                    spec_parse_from(toks, rbrace + 1),
                                ),
                            },
                        }
                    }
                },
            }
        }
    } else if toks[i].kind == TokenKind::Identifier {
        if toks[i + 1].kind != TokenKind::OParen {
            Err(
                perr(
                    ParseErrorKind::MissingExpectedKind,
                    msg_expected(TokenKind::OParen, toks[i].value, toks[i + 1].kind),
                    toks[i + 1].location,
                ),
            )
        } else {
            match spec_parse_args(toks, i + 1) {
                Err(e) => Err(e),
                Ok((args, close)) => {
                    if toks[close + 2].kind != TokenKind::Semicolon {
                        Err(
                            perr(
                                ParseErrorKind::MissingExpectedKind,
                                msg_expected(
                                    TokenKind::Semicolon,
                                    toks[close + 1].value,
                                    toks[close + 2].kind,
                                ),
                                toks[close + 2].location,
                            ),
                        )
                    } else {
                        prepend_node(
                            NodeView {
                                kind: NodeKindView::FuncCall(toks[i].value, args),
                                location: toks[close + 2].location,
                            },
                            spec_parse_from(toks, close + 3),
                        )
                    }
                },
            }
        }
    } else {
        Err(
            perr(
                ParseErrorKind::UnimplementedConstruct,
                msg_token_unimplemented(toks[i].value, toks[i].kind),
                toks[i].location,
            ),
        )
    }
}

#[via_fn]
proof fn spec_parse_from_dec(toks: Seq<TokenView>, i: int) {
    if 0 <= i < toks.len() && wf_token_seq(toks) {
        lemma_parse_params_bounds(toks, i + 2);
        lemma_parse_args_bounds(toks, i + 1);
        if toks[i].kind == TokenKind::Type {
            match spec_parse_params(toks, i + 2) {
                Err(_) => {},
                Ok(close) => {
                    if 0 <= close + 3 < toks.len() {
                        lemma_body_end_bounds(toks, close + 3);
                        match spec_body_end(toks, close + 3) {
                            Err(_) => {},
                            Ok(rbrace) => {
                                let body = body_slice(toks, close + 3, rbrace);
                                assert(body.len() < toks.len());
                                assert(body[body.len() - 1].kind == TokenKind::Eof);
                                assert forall|k: int| 0 <= k < body.len() - 1 implies (
                                #[trigger] body[k].kind) != TokenKind::Eof by {
                                    assert(body[k] == toks[close + 3 + k]);
                                    assert(close + 3 + k < toks.len() - 1);
                                }
                            },
                        }
                    }
                },
            }
        }
    }
}

/// The abstract syntax of a whole token sequence, or the first failure.
pub open spec fn spec_parse(toks: Seq<TokenView>) -> Result<Seq<NodeView>, ParseErrorView> {
    spec_parse_from(toks, 0)
}

// ---------------------------------------------------------------------------
// Gluing finished statements onto the remaining parse.
// ---------------------------------------------------------------------------

/// The finished prefix of nodes followed by the rest of the parse.
pub open spec fn parse_glue(
    done: Seq<NodeView>,
    rest: Result<Seq<NodeView>, ParseErrorView>,
) -> Result<Seq<NodeView>, ParseErrorView> {
    match rest {
        Ok(ns) => Ok(done + ns),
        Err(e) => Err(e),
    }
}

proof fn lemma_parse_glue_empty(r: Result<Seq<NodeView>, ParseErrorView>)
    ensures
        parse_glue(Seq::empty(), r) == r,
{
    match r {
        Ok(ns) => {
            assert(Seq::<NodeView>::empty() + ns =~= ns);
        },
        Err(_) => {},
    }
}

proof fn lemma_parse_glue_step(
    done: Seq<NodeView>,
    n: NodeView,
    rest: Result<Seq<NodeView>, ParseErrorView>,
)
    ensures
        parse_glue(done, prepend_node(n, rest)) == parse_glue(done.push(n), rest),
{
    match rest {
        Ok(ns) => {
            assert(done + (seq![n] + ns) =~= done.push(n) + ns);
        },
        Err(_) => {},
    }
}

proof fn lemma_node_views_push(ns: Seq<Node>, n: Node)
    ensures
        node_views(ns.push(n)) == node_views(ns).push(node_view(n)),
{
    assert(node_views(ns.push(n)) =~= node_views(ns).push(node_view(n)));
}

/// The finished prefix of arguments followed by the rest of the list.
pub open spec fn args_glue(
    done: Seq<NodeKindView>,
    rest: Result<(Seq<NodeKindView>, int), ParseErrorView>,
) -> Result<(Seq<NodeKindView>, int), ParseErrorView> {
    match rest {
        Ok((args, close)) => Ok((done + args, close)),
        Err(e) => Err(e),
    }
}

proof fn lemma_args_glue_empty(r: Result<(Seq<NodeKindView>, int), ParseErrorView>)
    ensures
        args_glue(Seq::empty(), r) == r,
{
    match r {
        Ok((args, _)) => {
            assert(Seq::<NodeKindView>::empty() + args =~= args);
        },
        Err(_) => {},
    }
}

proof fn lemma_args_glue_step(
    done: Seq<NodeKindView>,
    a: NodeKindView,
    rest: Result<(Seq<NodeKindView>, int), ParseErrorView>,
)
    ensures
        args_glue(
            done,
            match rest {
                Ok((args, close)) => Ok::<_, ParseErrorView>((seq![a] + args, close)),
                Err(e) => Err(e),
            },
        ) == args_glue(done.push(a), rest),
{
    match rest {
        Ok((args, _)) => {
            assert(done + (seq![a] + args) =~= done.push(a) + args);
        },
        Err(_) => {},
    }
}

// ---------------------------------------------------------------------------
// The executable parser.
// ---------------------------------------------------------------------------

/// A non-final token stands strictly before the end marker.
proof fn lemma_interior(toks: Seq<TokenView>, k: int)
    requires
        wf_token_seq(toks),
        0 <= k < toks.len(),
        toks[k].kind != TokenKind::Eof,
    ensures
        k < toks.len() - 1,
{
}

/// Checks that the token at `at` has the expected kind; reports what stands
/// after the token at `after` otherwise.
fn expect_kind(tokens: &Vec<Token>, after: usize, at: usize, expected: TokenKind) -> (r: Result<
    (),
    ParseError,
>)
    requires
        after < tokens@.len(),
        at < tokens@.len(),
    ensures
        match r {
            Ok(_) => token_views(tokens@)[at as int].kind == expected,
            Err(e) => {
                &&& token_views(tokens@)[at as int].kind != expected
                &&& e@ == perr(
                    ParseErrorKind::MissingExpectedKind,
                    msg_expected(
                        expected,
                        token_views(tokens@)[after as int].value,
                        token_views(tokens@)[at as int].kind,
                    ),
                    token_views(tokens@)[at as int].location,
                )
            },
        },
{
    let k = tokens[at].kind;
    if k == expected {
        Ok(())
    } else {
        Err(
            ParseError {
                kind: ParseErrorKind::MissingExpectedKind,
                message: build_msg_expected(expected, &tokens[after].value, k),
                location: tokens[at].location.duplicate(),
            },
        )
    }
}

/// Consumes a parameter list, returning the index of its last token.
fn parse_params(tokens: &Vec<Token>, start: usize) -> (r: Result<usize, ParseError>)
    requires
        wf_token_seq(token_views(tokens@)),
        start + 1 < tokens@.len(),
    ensures
        match r {
            Ok(close) => {
                &&& spec_parse_params(token_views(tokens@), start as int) == Ok::<
                    int,
                    ParseErrorView,
                >(close as int)
                &&& start <= close
                &&& close + 1 < tokens@.len()
                &&& token_views(tokens@)[close as int + 1].kind == TokenKind::CParen
            },
            Err(e) => spec_parse_params(token_views(tokens@), start as int) == Err::<
                int,
                ParseErrorView,
            >(e@),
        },
{
    let ghost tv = token_views(tokens@);
    let mut cur = start;
    while tokens[cur + 1].kind != TokenKind::CParen
        invariant
            tv == token_views(tokens@),
            tv.len() == tokens.len(),
            wf_token_seq(tv),
            start <= cur,
            cur + 1 < tv.len(),
            spec_parse_params(tv, start as int) == spec_parse_params(tv, cur as int),
        decreases tv.len() - cur,
    {
        match expect_kind(tokens, cur, cur + 1, TokenKind::Type) {
            Ok(_) => {},
            Err(e) => {
                return Err(e);
            },
        }
        proof {
            lemma_interior(tv, cur as int + 1);
        }
        match expect_kind(tokens, cur + 1, cur + 2, TokenKind::Identifier) {
            Ok(_) => {},
            Err(e) => {
                return Err(e);
            },
        }
        proof {
            lemma_interior(tv, cur as int + 2);
        }
        if tokens[cur + 3].kind == TokenKind::Comma {
            proof {
                lemma_interior(tv, cur as int + 3);
            }
            cur = cur + 3;
        } else {
            cur = cur + 2;
        }
    }
    Ok(cur)
}

/// Consumes an argument list, returning the arguments and the index of the
/// list's last token.
fn parse_args(tokens: &Vec<Token>, start: usize) -> (r: Result<
    (Vec<Box<NodeKind>>, usize),
    ParseError,
>)
    requires
        wf_token_seq(token_views(tokens@)),
        start + 1 < tokens@.len(),
    ensures
        match r {
            Ok(p) => {
                &&& spec_parse_args(token_views(tokens@), start as int) == Ok::<
                    _,
                    ParseErrorView,
                >((boxed_kind_views(p.0@), p.1 as int))
                &&& start <= p.1
                &&& p.1 + 1 < tokens@.len()
                &&& token_views(tokens@)[p.1 as int + 1].kind == TokenKind::CParen
            },
            Err(e) => spec_parse_args(token_views(tokens@), start as int) == Err::<
                (Seq<NodeKindView>, int),
                _,
            >(e@),
        },
{
    let ghost tv = token_views(tokens@);
    let mut cur = start;
    let mut args: Vec<Box<NodeKind>> = Vec::new();
    proof {
        lemma_args_glue_empty(spec_parse_args(tv, start as int));
        assert(boxed_kind_views(args@) =~= Seq::<NodeKindView>::empty());
    }
    while tokens[cur + 1].kind != TokenKind::CParen
        invariant
            tv == token_views(tokens@),
            tv.len() == tokens.len(),
            wf_token_seq(tv),
            start <= cur,
            cur + 1 < tv.len(),
            args_glue(boxed_kind_views(args@), spec_parse_args(tv, cur as int))
                == spec_parse_args(tv, start as int),
        decreases tv.len() - cur,
    {
        let ak = tokens[cur + 1].kind;
        if ak != TokenKind::Identifier && ak != TokenKind::String {
            return Err(
                ParseError {
                    kind: ParseErrorKind::UnexpectedTokenKind,
                    message: build_msg_expected_either(
                        "Identifier, String",
                        &tokens[cur].value,
                        ak,
                    ),
                    location: tokens[cur + 1].location.duplicate(),
                },
            );
        }
        let arg: NodeKind = if ak == TokenKind::Identifier {
            NodeKind::Identifier(tokens[cur + 1].value.clone())
        } else {
            NodeKind::String(tokens[cur + 1].value.clone())
        };
        proof {
            lemma_interior(tv, cur as int + 1);
            lemma_args_glue_step(
                boxed_kind_views(args@),
                kind_view(arg),
                spec_parse_args(
                    tv,
                    if tv[cur as int + 2].kind == TokenKind::Comma {
                        cur as int + 2
                    } else {
                        cur as int + 1
                    },
                ),
            );
            lemma_boxed_kind_views_push(args@, Box::new(arg));
        }
        args.push(Box::new(arg));
        if tokens[cur + 2].kind == TokenKind::Comma {
            proof {
                lemma_interior(tv, cur as int + 2);
            }
            cur = cur + 2;
        } else {
            cur = cur + 1;
        }
    }
    proof {
        assert(boxed_kind_views(args@) + Seq::<NodeKindView>::empty() =~= boxed_kind_views(
            args@,
        ));
    }
    Ok((args, cur))
}

/// Finds the first closing brace at or after `start`.
fn find_body_end(tokens: &Vec<Token>, start: usize) -> (r: Result<usize, ParseError>)
    requires
        wf_token_seq(token_views(tokens@)),
        start < tokens@.len(),
    ensures
        match r {
            Ok(rb) => {
                &&& spec_body_end(token_views(tokens@), start as int) == Ok::<
                    int,
                    ParseErrorView,
                >(rb as int)
                &&& start <= rb
                &&& rb < tokens@.len() - 1
                &&& token_views(tokens@)[rb as int].kind == TokenKind::CCurly
            },
            Err(e) => spec_body_end(token_views(tokens@), start as int) == Err::<
                int,
                ParseErrorView,
            >(e@),
        },
{
    let ghost tv = token_views(tokens@);
    let mut k = start;
    while tokens[k].kind != TokenKind::CCurly && tokens[k].kind != TokenKind::Eof
        invariant
            tv == token_views(tokens@),
            tv.len() == tokens.len(),
            wf_token_seq(tv),
            start <= k,
            k < tv.len(),
            spec_body_end(tv, start as int) == spec_body_end(tv, k as int),
        decreases tv.len() - k,
    {
        proof {
            lemma_interior(tv, k as int);
        }
        k = k + 1;
    }
    if tokens[k].kind == TokenKind::CCurly {
        proof {
            lemma_interior(tv, k as int);
        }
        Ok(k)
    } else {
        Err(
            ParseError {
                kind: ParseErrorKind::MissingExpectedKind,
                message: build_msg_expected(TokenKind::CCurly, &tokens[k].value, tokens[k].kind),
                location: tokens[k].location.duplicate(),
            },
        )
    }
}

/// Parses a whole token sequence into nodes, or reports the first failure.
#[verifier::rlimit(100)]
fn parse_tokens(tokens: &Vec<Token>) -> (r: Result<Vec<Node>, ParseError>)
    requires
        wf_token_seq(token_views(tokens@)),
    ensures
        match r {
            Ok(ns) => spec_parse(token_views(tokens@)) == Ok::<_, ParseErrorView>(
                node_views(ns@),
            ),
            Err(e) => spec_parse(token_views(tokens@)) == Err::<Seq<NodeView>, _>(e@),
        },
    decreases tokens@.len(),
{
    let ghost tv = token_views(tokens@);
    let mut out: Vec<Node> = Vec::new();
    let mut i: usize = 0;
    proof {
        lemma_parse_glue_empty(spec_parse_from(tv, 0));
        assert(node_views(out@) =~= Seq::<NodeView>::empty());
    }
    while tokens[i].kind != TokenKind::Eof
        invariant
            tv == token_views(tokens@),
            tv.len() == tokens.len(),
            wf_token_seq(tv),
            i < tv.len(),
            parse_glue(node_views(out@), spec_parse_from(tv, i as int)) == spec_parse_from(tv, 0),
        decreases tv.len() - i,
    {
        proof {
            lemma_interior(tv, i as int);
        }
        let k = tokens[i].kind;
        if k == TokenKind::Keyword {
            let kw = keyword_string();
            if tokens[i].value.eq(&kw) {
                match expect_kind(tokens, i, i + 1, TokenKind::Identifier) {
                    Ok(_) => {},
                    Err(e) => {
                        return Err(e);
                    },
                }
                proof {
                    lemma_interior(tv, i as int + 1);
                }
                match expect_kind(tokens, i + 1, i + 2, TokenKind::Semicolon) {
                    Ok(_) => {},
                    Err(e) => {
                        return Err(e);
                    },
                }
                proof {
                    lemma_interior(tv, i as int + 2);
                }
                let node = Node {
                    kind: NodeKind::Include(tokens[i + 1].value.clone()),
                    location: tokens[i + 2].location.duplicate(),
                };
                proof {
                    lemma_parse_glue_step(
                        node_views(out@),
                        node_view(node),
                        spec_parse_from(tv, i as int + 3),
                    );
                    lemma_node_views_push(out@, node);
                }
                out.push(node);
                i = i + 3;
            } else if crate::text::str_matches(&tokens[i].value, "print") {
                match expect_kind(tokens, i, i + 1, TokenKind::String) {
                    Ok(_) => {},
                    Err(e) => {
                        return Err(e);
                    },
                }
                proof {
                    lemma_interior(tv, i as int + 1);
                }
                match expect_kind(tokens, i + 1, i + 2, TokenKind::Semicolon) {
                    Ok(_) => {},
                    Err(e) => {
                        return Err(e);
                    },
                }
                proof {
                    lemma_interior(tv, i as int + 2);
                }
                let node = Node {
                    kind: NodeKind::Print(tokens[i + 1].value.clone()),
                    location: tokens[i + 2].location.duplicate(),
                };
                proof {
                    lemma_parse_glue_step(
                        node_views(out@),
                        node_view(node),
                        spec_parse_from(tv, i as int + 3),
                    );
                    lemma_node_views_push(out@, node);
                }
                out.push(node);
                i = i + 3;
            } else {
                return Err(
                    ParseError {
                        kind: ParseErrorKind::UnimplementedConstruct,
                        message: build_msg_keyword_unimplemented(&tokens[i].value),
                        location: tokens[i].location.duplicate(),
                    },
                );
            }
        } else if k == TokenKind::Type {
            match expect_kind(tokens, i, i + 1, TokenKind::Identifier) {
                Ok(_) => {},
                Err(e) => {
                    return Err(e);
                },
            }
            proof {
                lemma_interior(tv, i as int + 1);
            }
            if tokens[i + 2].kind == TokenKind::Identifier {
                return Err(
                    ParseError {
                        kind: ParseErrorKind::UnimplementedConstruct,
                        message: build_msg_variable_unimplemented(),
                        location: tokens[i + 2].location.duplicate(),
                    },
                );
            }
            if tokens[i + 2].kind != TokenKind::OParen {
                return Err(
                    ParseError {
                        kind: ParseErrorKind::UnexpectedTokenKind,
                        message: build_msg_expected_either(
                            "OParen, Identifier",
                            &tokens[i + 1].value,
                            tokens[i + 2].kind,
                        ),
                        location: tokens[i + 2].location.duplicate(),
                    },
                );
            }
            let close = match parse_params(tokens, i + 2) {
                Ok(c) => c,
                Err(e) => {
                    return Err(e);
                },
            };
            proof {
                lemma_interior(tv, close as int + 1);
            }
            match expect_kind(tokens, close + 1, close + 2, TokenKind::OCurly) {
                Ok(_) => {},
                Err(e) => {
                    return Err(e);
                },
            }
            proof {
                lemma_interior(tv, close as int + 2);
            }
            let rbrace = match find_body_end(tokens, close + 3) {
                Ok(rb) => rb,
                Err(e) => {
                    return Err(e);
                },
            };
            let mut body: Vec<Token> = Vec::new();
            let mut b = close + 3;
            proof {
                assert(token_views(body@) =~= tv.subrange(close as int + 3, close as int + 3));
            }
            while b < rbrace
                invariant
                    tv == token_views(tokens@),
                    tv.len() == tokens.len(),
                    close + 3 <= b <= rbrace < tv.len(),
                    token_views(body@) == tv.subrange(close as int + 3, b as int),
                decreases rbrace - b,
            {
                let copy = tokens[b].duplicate();
                proof {
                    assert(token_views(body@.push(copy)) =~= token_views(body@).push(copy@));
                    assert(tv.subrange(close as int + 3, b as int).push(tv[b as int]) =~= tv
                        .subrange(close as int + 3, b as int + 1));
                }
                body.push(copy);
                b = b + 1;
            }
            let beof = Token {
                kind: TokenKind::Eof,
                value: String::new(),
                location: tokens[rbrace].location.duplicate(),
            };
            proof {
                assert(token_views(body@.push(beof)) =~= token_views(body@).push(beof@));
                assert(beof@ == body_eof_token(tv[rbrace as int]));
            }
            body.push(beof);
            let ghost bv = body_slice(tv, close as int + 3, rbrace as int);
            proof {
                assert(token_views(body@) == bv);
                assert(bv[bv.len() - 1].kind == TokenKind::Eof);
                assert forall|q: int| 0 <= q < bv.len() - 1 implies (#[trigger] bv[q].kind)
                    != TokenKind::Eof by {
                    assert(bv[q] == tv[close as int + 3 + q]);
                    assert(close as int + 3 + q < tv.len() - 1);
                }
                assert(wf_token_seq(bv));
                assert(body@.len() < tokens@.len());
            }
            let body_nodes = match parse_tokens(&body) {
                Ok(ns) => ns,
                Err(e) => {
                    return Err(e);
                },
            };
            let mut boxed: Vec<Box<Node>> = Vec::new();
            let mut q: usize = 0;
            proof {
                assert(boxed_node_views(boxed@) =~= node_views(body_nodes@).subrange(0, 0));
            }
            while q < body_nodes.len()
                invariant
                    q <= body_nodes@.len(),
                    boxed_node_views(boxed@) == node_views(body_nodes@).subrange(0, q as int),
                decreases body_nodes@.len() - q,
            {
                let copy = body_nodes[q].duplicate();
                proof {
                    crate::ast::lemma_boxed_node_views_push(boxed@, Box::new(copy));
                    assert(node_views(body_nodes@).subrange(0, q as int).push(
                        node_views(body_nodes@)[q as int],
                    ) =~= node_views(body_nodes@).subrange(0, q as int + 1));
                }
                boxed.push(Box::new(copy));
                q = q + 1;
            }
            proof {
                assert(node_views(body_nodes@).subrange(0, body_nodes@.len() as int) =~= node_views(
                    body_nodes@,
                ));
            }
            let node = Node {
                kind: NodeKind::FuncDecl(
                    tokens[i].value.clone(),
                    tokens[i + 1].value.clone(),
                    boxed,
                ),
                location: tokens[rbrace].location.duplicate(),
            };
            proof {
                lemma_parse_glue_step(
                    node_views(out@),
                    node_view(node),
                    spec_parse_from(tv, rbrace as int + 1),
                );
                lemma_node_views_push(out@, node);
            }
            out.push(node);
            i = rbrace + 1;
        } else if k == TokenKind::Identifier {
            match expect_kind(tokens, i, i + 1, TokenKind::OParen) {
                Ok(_) => {},
                Err(e) => {
                    return Err(e);
                },
            }
            let pair = match parse_args(tokens, i + 1) {
                Ok(p) => p,
                Err(e) => {
                    return Err(e);
                },
            };
            let args = pair.0;
            let close = pair.1;
            proof {
                lemma_interior(tv, close as int + 1);
            }
            match expect_kind(tokens, close + 1, close + 2, TokenKind::Semicolon) {
                Ok(_) => {},
                Err(e) => {
                    return Err(e);
                },
            }
            proof {
                lemma_interior(tv, close as int + 2);
            }
            let node = Node {
                kind: NodeKind::FuncCall(tokens[i].value.clone(), args),
                location: tokens[close + 2].location.duplicate(),
            };
            proof {
                lemma_parse_glue_step(
                    node_views(out@),
                    node_view(node),
                    spec_parse_from(tv, close as int + 3),
                );
                lemma_node_views_push(out@, node);
            }
            out.push(node);
            i = close + 3;
        } else {
            return Err(
                ParseError {
                    kind: ParseErrorKind::UnimplementedConstruct,
                    message: build_msg_token_unimplemented(&tokens[i].value, k),
                    location: tokens[i].location.duplicate(),
                },
            );
        }
    }
    proof {
        assert(node_views(out@) + Seq::<NodeView>::empty() =~= node_views(out@));
    }
    Ok(out)
}

/// Turns a token sequence into an abstract syntax tree. Single-use:
/// construct it over the tokens, run `parse` once, and take the nodes with
/// `parsed`.
pub struct Parser {
    input_tokens: Vec<Token>,
    output_nodes: Vec<Node>,
}

impl Parser {
    /// The images of the tokens being parsed.
    pub closed spec fn input(&self) -> Seq<TokenView> {
        token_views(self.input_tokens@)
    }

    /// The images of the nodes produced so far.
    pub closed spec fn output(&self) -> Seq<NodeView> {
        node_views(self.output_nodes@)
    }

    /// Readies a parse of `tokens`.
    pub fn new(tokens: Vec<Token>) -> (r: Self)
        ensures
            r.input() == token_views(tokens@),
            r.output().len() == 0,
    {
        proof {
            assert(node_views(Seq::<Node>::empty()) =~= Seq::<NodeView>::empty());
        }
        Parser { input_tokens: tokens, output_nodes: Vec::new() }
    }

    /// Parses the whole token sequence into nodes, or reports the first
    /// failure and produces nothing.
    pub fn parse(&mut self) -> (r: Result<(), ParseError>)
        requires
            wf_token_seq(old(self).input()),
        ensures
            final(self).input() == old(self).input(),
            match r {
                Ok(_) => spec_parse(old(self).input()) == Ok::<_, ParseErrorView>(
                    final(self).output(),
                ),
                Err(e) => {
                    &&& spec_parse(old(self).input()) == Err::<Seq<NodeView>, _>(e@)
                    &&& final(self).output() == old(self).output()
                },
            },
    {
        match parse_tokens(&self.input_tokens) {
            Ok(nodes) => {
                self.output_nodes = nodes;
                Ok(())
            },
            Err(e) => Err(e),
        }
    }

    /// The parsed nodes.
    pub fn parsed(&self) -> (r: Vec<Node>)
        ensures
            node_views(r@) == self.output(),
    {
        let mut out: Vec<Node> = Vec::new();
        let mut q: usize = 0;
        proof {
            assert(node_views(out@) =~= node_views(self.output_nodes@).subrange(0, 0));
        }
        while q < self.output_nodes.len()
            invariant
                q <= self.output_nodes@.len(),
                node_views(out@) == node_views(self.output_nodes@).subrange(0, q as int),
            decreases self.output_nodes@.len() - q,
        {
            let copy = self.output_nodes[q].duplicate();
            proof {
                lemma_node_views_push(out@, copy);
                assert(node_views(self.output_nodes@).subrange(0, q as int).push(
                    node_views(self.output_nodes@)[q as int],
                ) =~= node_views(self.output_nodes@).subrange(0, q as int + 1));
            }
            out.push(copy);
            q = q + 1;
        }
        proof {
            assert(node_views(self.output_nodes@).subrange(0, self.output_nodes@.len() as int)
                =~= node_views(self.output_nodes@));
        }
        out
    }
}

} // verus!
