//! Laws of the references in a macro body.

use crate::ast::{BodyStatementView, TemplateParameterView};
use crate::parse::body::{
    call_args, call_names, classify_reference, lemma_next_solid_forward, next_solid,
    token_or_none, BodyTokenView,
};
use crate::token::CodeToken;
use vstd::prelude::*;

verus! {

/// What may stand between the brackets of a template call.
pub open spec fn inside_call(token: BodyTokenView) -> bool {
    token.kind == Some(CodeToken::Whitespace) || token.kind == Some(CodeToken::Name) || token.kind
        == Some(CodeToken::Comma)
}

/// The tokens passed over are whitespace, and the token reached is none.
proof fn lemma_next_solid(tokens: Seq<BodyTokenView>, at: int)
    requires
        0 <= at,
    ensures
        forall|j: int|
            at <= j < next_solid(tokens, at) && j < tokens.len() ==> (#[trigger] tokens[j]).kind
                == Some(CodeToken::Whitespace),
        token_or_none(tokens, next_solid(tokens, at)).kind != Some(CodeToken::Whitespace),
    decreases tokens.len() - at,
{
    if at < tokens.len() && tokens[at].kind == Some(CodeToken::Whitespace) {
        lemma_next_solid(tokens, at + 1);
    }
}

/// An argument list that is read ends at a `>`, holds known names only, and
/// passes over nothing but names, commas and whitespace.
proof fn lemma_call_args_closed(
    tokens: Seq<BodyTokenView>,
    names: Seq<Seq<char>>,
    at: int,
    list: Seq<Seq<char>>,
)
    requires
        0 <= at,
    ensures
        match call_args(tokens, names, at, list) {
            Some((args, close)) => {
                &&& at < close < tokens.len()
                &&& tokens[close].kind == Some(CodeToken::DiamondClose)
                &&& args.len() > list.len()
                &&& forall|k: int| 0 <= k < list.len() ==> args[k] == list[k]
                &&& forall|k: int| list.len() <= k < args.len() ==> names.contains(#[trigger] args[k])
                &&& forall|j: int| at <= j < close ==> inside_call(#[trigger] tokens[j])
            },
            None => true,
        },
    decreases tokens.len() - at,
{
    lemma_next_solid_forward(tokens, at);
    lemma_next_solid(tokens, at);
    let arg = next_solid(tokens, at);
    let token = token_or_none(tokens, arg);
    if token.kind == Some(CodeToken::Name) && names.contains(token.text) {
        lemma_next_solid_forward(tokens, arg + 1);
        lemma_next_solid(tokens, arg + 1);
        let sep = next_solid(tokens, arg + 1);
        let kind = token_or_none(tokens, sep).kind;
        let more = list.push(token.text);
        if kind == Some(CodeToken::DiamondClose) {
            assert forall|j: int| at <= j < sep implies inside_call(#[trigger] tokens[j]) by {
                if j < arg {
                } else if j == arg {
                } else {
                }
            }
        } else if kind == Some(CodeToken::Comma) {
            lemma_call_args_closed(tokens, names, sep + 1, more);
            match call_args(tokens, names, sep + 1, more) {
                Some((args, close)) => {
                    assert forall|k: int| 0 <= k < list.len() implies args[k] == list[k] by {
                        assert(args[k] == more[k]);
                    }
                    assert forall|k: int| list.len() <= k < args.len() implies names.contains(
                        #[trigger] args[k],
                    ) by {
                        if k == list.len() {
                            assert(args[k] == more[k]);
                        }
                    }
                    assert forall|j: int| at <= j < close implies inside_call(
                        #[trigger] tokens[j],
                    ) by {
                        if j < arg {
                        } else if j == arg {
                        } else if j < sep {
                        } else if j == sep {
                        } else {
                        }
                    }
                },
                None => {},
            }
        }
    }
}

/// A template call is closed and holds known names only: it starts with a
/// name and `<`, ends at a `>`, every argument is the name of a template
/// parameter or of a macro argument, and between the brackets stand only
/// names, commas and whitespace.  In particular `<` without a `>`, or with
/// anything else before the `>`, starts no template call.
pub proof fn law_template_call_is_closed(
    tokens: Seq<BodyTokenView>,
    i: int,
    params: Option<Seq<TemplateParameterView>>,
    args: Option<Seq<Seq<char>>>,
)
    ensures
        match classify_reference(tokens, i, params, args) {
            Some((BodyStatementView::TemplateCall(call), skip)) => {
                &&& 0 <= i
                &&& i + 1 < i + skip < tokens.len()
                &&& tokens[i].kind == Some(CodeToken::Name)
                &&& call.name == tokens[i].text
                &&& tokens[i + 1].kind == Some(CodeToken::DiamondOpen)
                &&& tokens[i + skip].kind == Some(CodeToken::DiamondClose)
                &&& forall|k: int|
                    0 <= k < call.args.len() ==> call_names(params, args).contains(
                        #[trigger] call.args[k],
                    )
                &&& forall|j: int| i + 1 < j < i + skip ==> inside_call(#[trigger] tokens[j])
            },
            _ => true,
        },
{
    let t1 = token_or_none(tokens, i);
    let t2 = token_or_none(tokens, i + 1);
    if t2.kind == Some(CodeToken::DiamondOpen) && t1.kind == Some(CodeToken::Name) {
        lemma_next_solid_forward(tokens, i + 2);
        lemma_next_solid(tokens, i + 2);
        let first = next_solid(tokens, i + 2);
        if token_or_none(tokens, first).kind == Some(CodeToken::DiamondClose) {
        } else {
            lemma_call_args_closed(tokens, call_names(params, args), i + 2, Seq::empty());
        }
    }
}

/// Where no `>` follows a `<`, the name before the `<` starts no reference:
/// a less-than sign in a macro body stays text.
pub proof fn law_open_bracket_is_no_call(
    tokens: Seq<BodyTokenView>,
    i: int,
    params: Option<Seq<TemplateParameterView>>,
    args: Option<Seq<Seq<char>>>,
)
    requires
        0 <= i,
        i + 1 < tokens.len(),
        tokens[i + 1].kind == Some(CodeToken::DiamondOpen),
        forall|j: int| i + 1 < j < tokens.len() ==> (#[trigger] tokens[j]).kind != Some(
            CodeToken::DiamondClose,
        ),
    ensures
        classify_reference(tokens, i, params, args) is None,
{
    law_template_call_is_closed(tokens, i, params, args);
}

} // verus!
