//! Parameter lists: `<a, b>`, `(a, ...)` and `<1..2, 3..4>`.

use crate::error::{ParseError, ParseErrorView};
use crate::lexer::{lemma_skip_blank_forward, Input, Lexer};
use crate::parse::body::{BodyToken, BodyTokenView};
use crate::token::CodeToken;
use vstd::prelude::*;

verus! {

/// The first place at or after `from` where a token of `tokens` is not of
/// the kind that `variant` has there; places past the end of either are not
/// looked at.
pub open spec fn first_mismatch(
    tokens: Seq<BodyTokenView>,
    variant: Seq<CodeToken>,
    from: int,
) -> Option<int>
    decreases variant.len() - from,
{
    if from < 0 || from >= variant.len() || from >= tokens.len() {
        None
    } else if tokens[from].kind == Some(variant[from]) {
        first_mismatch(tokens, variant, from + 1)
    } else {
        Some(from)
    }
}

/// The first variant at or after `from` that `tokens` do not mismatch.
pub open spec fn first_match(
    tokens: Seq<BodyTokenView>,
    capture: Seq<Seq<CodeToken>>,
    from: int,
) -> Option<int>
    decreases capture.len() - from,
{
    if from < 0 || from >= capture.len() {
        None
    } else if first_mismatch(tokens, capture[from], 0) is None {
        Some(from)
    } else {
        first_match(tokens, capture, from + 1)
    }
}

/// The number of texts that one parameter yields.
pub open spec fn capture_width(capture: Seq<Seq<CodeToken>>) -> nat {
    if capture.len() > 0 {
        capture[0].len()
    } else {
        0
    }
}

/// The texts of the first `n` tokens; empty texts where tokens are missing.
pub open spec fn captured(tokens: Seq<BodyTokenView>, n: nat) -> Seq<Seq<char>> {
    Seq::new(
        n,
        |i: int|
            if i < tokens.len() {
                tokens[i].text
            } else {
                Seq::empty()
            },
    )
}

/// For every variant at or after `from`, the kind that it has where `tokens`
/// first mismatch it, appended to `acc`.
pub open spec fn mismatch_kinds(
    tokens: Seq<BodyTokenView>,
    capture: Seq<Seq<CodeToken>>,
    from: int,
    acc: Seq<CodeToken>,
) -> Seq<CodeToken>
    decreases capture.len() - from,
{
    if from < 0 || from >= capture.len() {
        acc
    } else {
        match first_mismatch(tokens, capture[from], 0) {
            Some(at) => mismatch_kinds(tokens, capture, from + 1, acc.push(capture[from][at])),
            None => mismatch_kinds(tokens, capture, from + 1, acc),
        }
    }
}

/// The first kind of every variant at or after `from` that has one, appended
/// to `acc`.
pub open spec fn first_kinds(capture: Seq<Seq<CodeToken>>, from: int, acc: Seq<CodeToken>) -> Seq<
    CodeToken,
>
    decreases capture.len() - from,
{
    if from < 0 || from >= capture.len() {
        acc
    } else if capture[from].len() > 0 {
        first_kinds(capture, from + 1, acc.push(capture[from][0]))
    } else {
        first_kinds(capture, from + 1, acc)
    }
}

/// The kind of the token that mismatches the last variant.
pub open spec fn last_seen(tokens: Seq<BodyTokenView>, capture: Seq<Seq<CodeToken>>) -> Option<
    CodeToken,
> {
    if capture.len() == 0 {
        None
    } else {
        match first_mismatch(tokens, capture.last(), 0) {
            Some(at) => tokens[at].kind,
            None => None,
        }
    }
}

/// Reads one parameter from its tokens.
///
/// The tokens match a variant where each of them is of the kind that the
/// variant has at its place; tokens after the variant's end are not looked at,
/// and missing tokens match.  Where the tokens match some variant, the
/// parameter is the texts of the tokens.  Where they match none, the failure
/// names the token that mismatched the last variant and expects, for every
/// variant, the kind at its mismatch, and then the first kind of every variant.
pub open spec fn match_parameter(
    inp: Input,
    pos: int,
    tokens: Seq<BodyTokenView>,
    capture: Seq<Seq<CodeToken>>,
) -> Result<Seq<Seq<char>>, ParseErrorView> {
    match first_match(tokens, capture, 0) {
        Some(_) => Ok(captured(tokens, capture_width(capture))),
        None => Err(
            inp.unexpected_token(
                pos,
                last_seen(tokens, capture),
                first_kinds(capture, 0, mismatch_kinds(tokens, capture, 0, Seq::empty())),
            ),
        ),
    }
}

/// Reads a parameter list up to the token `end`, when `pos` tokens have been
/// read: the parameters appended to `acc`, and the number of tokens read.
///
/// Whitespace and comments are passed over.  A comma ends a parameter, `end`
/// ends the last one; `pending` holds the tokens of the parameter being read.
/// Where the text ends first, the parameters read so far are the list.  A
/// failure comes with the number of tokens read when it was found.
pub open spec fn read_parameters(
    inp: Input,
    pos: int,
    capture: Seq<Seq<CodeToken>>,
    end: CodeToken,
    pending: Seq<BodyTokenView>,
    acc: Seq<Seq<Seq<char>>>,
) -> Result<(Seq<Seq<Seq<char>>>, int), (ParseErrorView, int)>
    decreases inp.left(pos),
{
    let next = inp.skip_blank(pos);
    match inp.current(next).kind {
        Some(kind) => {
            proof {
                lemma_skip_blank_forward(inp, pos);
            }
            if kind == CodeToken::Comma {
                match match_parameter(inp, next, pending, capture) {
                    Err(failure) => Err((failure, next)),
                    Ok(param) => read_parameters(
                        inp,
                        next,
                        capture,
                        end,
                        Seq::empty(),
                        acc.push(param),
                    ),
                }
            } else if kind == end {
                match match_parameter(inp, next, pending, capture) {
                    Err(failure) => Err((failure, next)),
                    Ok(param) => Ok((acc.push(param), next)),
                }
            } else {
                read_parameters(
                    inp,
                    next,
                    capture,
                    end,
                    pending.push(BodyTokenView { kind: Some(kind), text: inp.slice(next) }),
                    acc,
                )
            }
        },
        None => Ok((acc, next)),
    }
}

/// Reading a parameter list never goes back.
pub proof fn lemma_read_parameters_forward(
    inp: Input,
    pos: int,
    capture: Seq<Seq<CodeToken>>,
    end: CodeToken,
    pending: Seq<BodyTokenView>,
    acc: Seq<Seq<Seq<char>>>,
)
    ensures
        match read_parameters(inp, pos, capture, end, pending, acc) {
            Ok((_, after)) => after >= pos,
            Err(_) => true,
        },
    decreases inp.left(pos),
{
    lemma_skip_blank_forward(inp, pos);
    let next = inp.skip_blank(pos);
    match inp.current(next).kind {
        Some(kind) => {
            if kind == CodeToken::Comma {
                match match_parameter(inp, next, pending, capture) {
                    Err(_) => {},
                    Ok(param) => {
                        lemma_read_parameters_forward(
                            inp,
                            next,
                            capture,
                            end,
                            Seq::empty(),
                            acc.push(param),
                        );
                    },
                }
            } else if kind == end {
            } else {
                lemma_read_parameters_forward(
                    inp,
                    next,
                    capture,
                    end,
                    pending.push(BodyTokenView { kind: Some(kind), text: inp.slice(next) }),
                    acc,
                );
            }
        },
        None => {},
    }
}

/// Checks `tokens` against one variant: where they first mismatch it.
fn check_variant(tokens: &Vec<BodyToken>, variant: &Vec<CodeToken>) -> (r: Option<usize>)
    ensures
        match r {
            Some(at) => first_mismatch(tokens.deep_view(), variant@, 0) == Some(at as int) && at
                < variant.len() && at < tokens.len(),
            None => first_mismatch(tokens.deep_view(), variant@, 0) is None,
        },
{
    let mut i: usize = 0;
    while i < variant.len() && i < tokens.len()
        invariant
            first_mismatch(tokens.deep_view(), variant@, 0) == first_mismatch(
                tokens.deep_view(),
                variant@,
                i as int,
            ),
        decreases variant.len() - i,
    {
        assert(tokens.deep_view()[i as int] == tokens@[i as int].deep_view());
        if tokens[i].kind != Some(variant[i]) {
            return Some(i);
        }
        i += 1;
    }
    None
}

/// Reads one parameter from its tokens; `lex` gives the place of a failure.
#[verifier::loop_isolation(false)]
pub fn parse_mmgx_parameters_body(
    lex: &Lexer,
    tokens: Vec<BodyToken>,
    capture: &Vec<Vec<CodeToken>>,
) -> (r: Result<Vec<String>, ParseError>)
    requires
        lex.wf(),
    ensures
        match match_parameter(lex.input(), lex.pos as int, tokens.deep_view(), capture.deep_view()) {
            Ok(param) => r matches Ok(texts) && texts.deep_view() == param,
            Err(failure) => r matches Err(e) && e.deep_view() == failure,
        },
{
    let ghost all = tokens.deep_view();
    let ghost variants = capture.deep_view();
    let mut expect: Vec<CodeToken> = Vec::new();
    let mut token: Option<CodeToken> = None;
    let mut found = false;
    let mut c: usize = 0;
    while c < capture.len() && !found
        invariant
            c <= capture.len(),
            !found ==> first_match(all, variants, 0) == first_match(all, variants, c as int),
            !found ==> mismatch_kinds(all, variants, 0, Seq::empty()) == mismatch_kinds(
                all,
                variants,
                c as int,
                expect@,
            ),
            !found ==> token == (if c == 0 {
                None
            } else {
                match first_mismatch(all, variants[c - 1], 0) {
                    Some(at) => all[at].kind,
                    None => None,
                }
            }),
            found ==> first_match(all, variants, 0) is Some,
        decreases capture.len() - c, if found { 0int } else { 1int },
    {
        assert(variants[c as int] =~= capture@[c as int]@);
        match check_variant(&tokens, &capture[c]) {
            Some(at) => {
                assert(all[at as int] == tokens@[at as int].deep_view());
                token = tokens[at].kind;
                expect.push(capture[c][at]);
                c += 1;
            },
            None => {
                found = true;
            },
        }
    }
    if !found {
        let mut k: usize = 0;
        let ghost mismatched = expect@;
        while k < capture.len()
            invariant
                k <= capture.len(),
                first_kinds(variants, 0, mismatched) == first_kinds(variants, k as int, expect@),
            decreases capture.len() - k,
        {
            assert(variants[k as int] =~= capture@[k as int]@);
            if capture[k].len() > 0 {
                expect.push(capture[k][0]);
            }
            k += 1;
        }
        assert(c == capture.len());
        assert(token == last_seen(all, variants));
        return Err(ParseError::unexpected_token(lex, token, expect));
    }
    let width: usize = if capture.len() > 0 {
        capture[0].len()
    } else {
        0
    };
    assert(width == capture_width(variants)) by {
        if capture.len() > 0 {
            assert(variants[0] =~= capture@[0]@);
        }
    }
    let mut texts: Vec<String> = Vec::new();
    let mut i: usize = 0;
    while i < width
        invariant
            i <= width,
            texts.len() == i,
            forall|j: int|
                0 <= j < i ==> #[trigger] texts@[j]@ == (if j < all.len() {
                    all[j].text
                } else {
                    Seq::empty()
                }),
        decreases width - i,
    {
        if i < tokens.len() {
            assert(all[i as int] == tokens@[i as int].deep_view());
            texts.push(tokens[i].text.clone());
        } else {
            texts.push(String::new());
        }
        i += 1;
    }
    assert(texts.deep_view() =~= captured(all, width as nat));
    Ok(texts)
}

/// Reads a parameter list up to the token `end`.  Every parameter is the
/// texts that its tokens yield under `capture`.
pub fn parse_mmgx_parameters(lex: &mut Lexer, capture: &Vec<Vec<CodeToken>>, end: CodeToken) -> (r:
    Result<Vec<Vec<String>>, ParseError>)
    requires
        old(lex).wf(),
    ensures
        final(lex).wf(),
        final(lex).input() == old(lex).input(),
        final(lex).pos >= old(lex).pos,
        match read_parameters(
            old(lex).input(),
            old(lex).pos as int,
            capture.deep_view(),
            end,
            Seq::empty(),
            Seq::empty(),
        ) {
            Ok((list, pos)) => r matches Ok(params) && params.deep_view() == list && final(lex).pos
                == pos,
            Err((failure, pos)) => r matches Err(e) && e.deep_view() == failure && final(lex).pos
                == pos,
        },
{
    let ghost inp = lex.input();
    let ghost variants = capture.deep_view();
    let mut params: Vec<Vec<String>> = Vec::new();
    let mut tokens: Vec<BodyToken> = Vec::new();
    assert(params.deep_view() =~= Seq::<Seq<Seq<char>>>::empty());
    assert(tokens.deep_view() =~= Seq::<BodyTokenView>::empty());
    loop
        invariant
            lex.wf(),
            lex.input() == inp,
            inp == old(lex).input(),
            variants == capture.deep_view(),
            lex.pos >= old(lex).pos,
            read_parameters(
                inp,
                lex.pos as int,
                variants,
                end,
                tokens.deep_view(),
                params.deep_view(),
            ) == read_parameters(
                inp,
                old(lex).pos as int,
                variants,
                end,
                Seq::empty(),
                Seq::empty(),
            ),
        decreases lex.tokens.len() - lex.pos,
    {
        let ghost before = params.deep_view();
        let ghost pending = tokens.deep_view();
        match lex.next_non_whitespace() {
            None => {
                return Ok(params);
            },
            Some(kind) => {
                if kind == CodeToken::Comma {
                    match parse_mmgx_parameters_body(lex, tokens, capture) {
                        Ok(param) => {
                            let ghost pv = param.deep_view();
                            params.push(param);
                            assert(params.deep_view() =~= before.push(pv));
                        },
                        Err(e) => {
                            return Err(e);
                        },
                    }
                    tokens = Vec::new();
                    assert(tokens.deep_view() =~= Seq::<BodyTokenView>::empty());
                } else if kind == end {
                    match parse_mmgx_parameters_body(lex, tokens, capture) {
                        Ok(param) => {
                            let ghost pv = param.deep_view();
                            params.push(param);
                            assert(params.deep_view() =~= before.push(pv));
                            return Ok(params);
                        },
                        Err(e) => {
                            return Err(e);
                        },
                    }
                } else {
                    tokens.push(BodyToken { kind: Some(kind), text: lex.slice() });
                    assert(tokens.deep_view() =~= pending.push(
                        BodyTokenView { kind: Some(kind), text: inp.slice(lex.pos as int) },
                    ));
                }
            },
        }
    }
}

} // verus!
