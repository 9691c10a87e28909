//! Classifying the tokens of a macro body into fragments.

use crate::ast::{
    BodyStatement, BodyStatementView, External, ExternalView, TemplateCall, TemplateCallView,
    TemplateParameter, TemplateParameterView,
};
use crate::compile::object::{lookup_slot, param_slot};
use crate::token::CodeToken;
use vstd::prelude::*;
use vstd::string::*;

verus! {

/// A token of a macro body: its kind and its text.
#[derive(Debug, Clone, PartialEq, Eq)]
pub struct BodyToken {
    pub kind: Option<CodeToken>,
    pub text: String,
}

/// The model of a body token.
pub struct BodyTokenView {
    pub kind: Option<CodeToken>,
    pub text: Seq<char>,
}

impl DeepView for BodyToken {
    type V = BodyTokenView;

    open spec fn deep_view(&self) -> BodyTokenView {
        BodyTokenView { kind: self.kind, text: self.text@ }
    }
}

/// The token at `at`, or a token without kind and text where there is none.
pub open spec fn token_or_none(tokens: Seq<BodyTokenView>, at: int) -> BodyTokenView {
    if 0 <= at < tokens.len() {
        tokens[at]
    } else {
        BodyTokenView { kind: None, text: Seq::empty() }
    }
}

/// The names of the `Param` entries of `params[from..]`, appended to `acc`.
pub open spec fn param_names(
    params: Seq<TemplateParameterView>,
    from: int,
    acc: Seq<Seq<char>>,
) -> Seq<Seq<char>>
    decreases params.len() - from,
{
    if from < 0 || from >= params.len() {
        acc
    } else {
        match params[from] {
            TemplateParameterView::Param(name) => param_names(params, from + 1, acc.push(name)),
            TemplateParameterView::Reference(_) => param_names(params, from + 1, acc),
        }
    }
}

/// The names that may stand as arguments of a template call: the parameters
/// of the enclosing template, then the arguments of the enclosing macro.
pub open spec fn call_names(
    params: Option<Seq<TemplateParameterView>>,
    args: Option<Seq<Seq<char>>>,
) -> Seq<Seq<char>> {
    let from_params = match params {
        Some(list) => param_names(list, 0, Seq::empty()),
        None => Seq::empty(),
    };
    match args {
        Some(list) => from_params + list,
        None => from_params,
    }
}

/// The number of tokens at and after `i`.
pub open spec fn tokens_left(tokens: Seq<BodyTokenView>, i: int) -> nat {
    if i < tokens.len() {
        (tokens.len() - i) as nat
    } else {
        0
    }
}

/// The place of the first token at or after `at` that is no whitespace, or
/// a place past the tokens where there is none.
pub open spec fn next_solid(tokens: Seq<BodyTokenView>, at: int) -> int
    decreases tokens.len() - at,
{
    if at < 0 || at >= tokens.len() {
        at
    } else if tokens[at].kind == Some(CodeToken::Whitespace) {
        next_solid(tokens, at + 1)
    } else {
        at
    }
}

/// Passing over whitespace never goes back and ends inside the tokens or
/// right after them.
pub proof fn lemma_next_solid_forward(tokens: Seq<BodyTokenView>, at: int)
    ensures
        at <= next_solid(tokens, at),
        0 <= at <= tokens.len() ==> next_solid(tokens, at) <= tokens.len(),
    decreases tokens.len() - at,
{
    if 0 <= at < tokens.len() && tokens[at].kind == Some(CodeToken::Whitespace) {
        lemma_next_solid_forward(tokens, at + 1);
    }
}

/// Reads the arguments of a template call from `tokens[at..]`, where an
/// argument is due: names out of `names`, separated by commas and closed by
/// `>`, with whitespace anywhere between them.  Gives the arguments appended
/// to `list` and the place of the `>`, or `None` where the tokens are no such
/// list: where a token is no known name, where a comma is not followed by an
/// argument, or where the tokens end before the `>`.
pub open spec fn call_args(
    tokens: Seq<BodyTokenView>,
    names: Seq<Seq<char>>,
    at: int,
    list: Seq<Seq<char>>,
) -> Option<(Seq<Seq<char>>, int)>
    decreases tokens_left(tokens, at),
{
    let arg = next_solid(tokens, at);
    let token = token_or_none(tokens, arg);
    if 0 <= at && token.kind == Some(CodeToken::Name) && names.contains(token.text) {
        let sep = next_solid(tokens, arg + 1);
        let kind = token_or_none(tokens, sep).kind;
        if kind == Some(CodeToken::DiamondClose) {
            Some((list.push(token.text), sep))
        } else if kind == Some(CodeToken::Comma) {
            proof {
                lemma_next_solid_forward(tokens, at);
                lemma_next_solid_forward(tokens, arg + 1);
            }
            call_args(tokens, names, sep + 1, list.push(token.text))
        } else {
            None
        }
    } else {
        None
    }
}

/// Reads a reference at `tokens[i]`: `Name.Name` or `Name::Name`, a reference
/// into another module, or `Name<arg, ..>`, a template call.  Gives the
/// fragment and the number of tokens after `tokens[i]` that belong to it.
///
/// A template call is a name, `<`, the arguments and `>`: the arguments are
/// names of template parameters or of macro arguments, separated by commas;
/// there may be none.  It reaches up to its `>`.  Anything else after `<` is
/// no template call.
pub open spec fn classify_reference(
    tokens: Seq<BodyTokenView>,
    i: int,
    params: Option<Seq<TemplateParameterView>>,
    args: Option<Seq<Seq<char>>>,
) -> Option<(BodyStatementView, nat)> {
    let t1 = token_or_none(tokens, i);
    let t2 = token_or_none(tokens, i + 1);
    let t3 = token_or_none(tokens, i + 2);
    if t2.kind == Some(CodeToken::Dot) || t2.kind == Some(CodeToken::ScopeResolution) {
        if t3.kind == Some(CodeToken::Name) && (t1.kind == Some(CodeToken::Name) || t1.kind
            == Some(CodeToken::Identifier)) {
            Some(
                (
                    BodyStatementView::External(
                        ExternalView {
                            module: t1.text,
                            object: t3.text,
                            implement: t2.kind == Some(CodeToken::Dot),
                        },
                    ),
                    2nat,
                ),
            )
        } else {
            None
        }
    } else if t2.kind == Some(CodeToken::DiamondOpen) && t1.kind == Some(CodeToken::Name) {
        let first = next_solid(tokens, i + 2);
        if token_or_none(tokens, first).kind == Some(CodeToken::DiamondClose) {
            Some(
                (
                    BodyStatementView::TemplateCall(
                        TemplateCallView { name: t1.text, args: Seq::empty() },
                    ),
                    (first - i) as nat,
                ),
            )
        } else {
            match call_args(tokens, call_names(params, args), i + 2, Seq::empty()) {
                Some((list, close)) => Some(
                    (
                        BodyStatementView::TemplateCall(
                            TemplateCallView { name: t1.text, args: list },
                        ),
                        (close - i) as nat,
                    ),
                ),
                None => None,
            }
        }
    } else {
        None
    }
}

/// The value slot of the parameter called `name`, where there are
/// parameters: the number of `Param` entries before the one of that name.
pub open spec fn bound_slot(
    params: Option<Seq<TemplateParameterView>>,
    name: Seq<char>,
) -> Option<int> {
    match params {
        Some(list) => param_slot(list, name, 0, 0),
        None => None,
    }
}

/// The fragments of the body tokens `tokens[i..]`, appended to `acc`, where
/// `tmp` is the literal text gathered since the last fragment.
///
/// A name ends the literal text.  It becomes the `Parameter` of its value
/// slot where it is a template parameter, else the reference that starts with
/// it, else an `OptDependency`.  `...` is replaced by `__VA_ARGS__` where `va_args` is set.
/// Everything else is literal text.
pub open spec fn classify_body(
    tokens: Seq<BodyTokenView>,
    params: Option<Seq<TemplateParameterView>>,
    args: Option<Seq<Seq<char>>>,
    va_args: bool,
    i: int,
    tmp: Seq<char>,
    acc: Seq<BodyStatementView>,
) -> Seq<BodyStatementView>
    decreases tokens_left(tokens, i),
{
    if i < 0 || i >= tokens.len() {
        acc.push(BodyStatementView::Expand(tmp))
    } else {
        let t = tokens[i];
        if t.kind == Some(CodeToken::VaArgs) {
            classify_body(
                tokens,
                params,
                args,
                va_args,
                i + 1,
                if va_args {
                    tmp + "__VA_ARGS__"@
                } else {
                    tmp + t.text
                },
                acc,
            )
        } else if t.kind == Some(CodeToken::Name) {
            let flushed = acc.push(BodyStatementView::Expand(tmp));
            match bound_slot(params, t.text) {
                Some(slot) => classify_body(
                    tokens,
                    params,
                    args,
                    va_args,
                    i + 1,
                    Seq::empty(),
                    flushed.push(BodyStatementView::Parameter(slot as usize)),
                ),
                None => match classify_reference(tokens, i, params, args) {
                    Some((stmt, skip)) => classify_body(
                        tokens,
                        params,
                        args,
                        va_args,
                        i + skip + 1,
                        Seq::empty(),
                        flushed.push(stmt),
                    ),
                    None => classify_body(
                        tokens,
                        params,
                        args,
                        va_args,
                        i + 1,
                        Seq::empty(),
                        flushed.push(BodyStatementView::OptDependency(t.text)),
                    ),
                },
            }
        } else {
            classify_body(tokens, params, args, va_args, i + 1, tmp + t.text, acc)
        }
    }
}

/// The fragments of a macro body.
pub open spec fn body_fragments(
    tokens: Seq<BodyTokenView>,
    params: Option<Seq<TemplateParameterView>>,
    args: Option<Seq<Seq<char>>>,
    va_args: bool,
) -> Seq<BodyStatementView> {
    classify_body(tokens, params, args, va_args, 0, Seq::empty(), Seq::empty())
}

/// The names that may stand as arguments of a template call.
fn gather_call_names(params: &Option<Vec<TemplateParameter>>, args: &Option<Vec<String>>) -> (r:
    Vec<String>)
    ensures
        r.deep_view() == call_names(params.deep_view(), args.deep_view()),
{
    let mut names: Vec<String> = Vec::new();
    assert(names.deep_view() =~= Seq::<Seq<char>>::empty());
    match params {
        Some(list) => {
            let mut i: usize = 0;
            while i < list.len()
                invariant
                    i <= list.len(),
                    param_names(list.deep_view(), i as int, names.deep_view()) == param_names(
                        list.deep_view(),
                        0,
                        Seq::empty(),
                    ),
                decreases list.len() - i,
            {
                assert(list.deep_view()[i as int] == list@[i as int].deep_view());
                match &list[i] {
                    TemplateParameter::Param(name) => {
                        let ghost before = names.deep_view();
                        names.push(name.clone());
                        assert(names.deep_view() =~= before.push(name@));
                    },
                    TemplateParameter::Reference(_) => {},
                }
                i += 1;
            }
        },
        None => {},
    }
    let ghost from_params = names.deep_view();
    match args {
        Some(list) => {
            let mut i: usize = 0;
            while i < list.len()
                invariant
                    i <= list.len(),
                    names.deep_view() == from_params + list.deep_view().take(i as int),
                decreases list.len() - i,
            {
                let ghost before = names.deep_view();
                names.push(list[i].clone());
                assert(names.deep_view() =~= before.push(list@[i as int]@));
                assert(list.deep_view().take(i as int).push(list@[i as int]@)
                    =~= list.deep_view().take(i + 1));
                assert(names.deep_view() =~= from_params + list.deep_view().take(i + 1));
                i += 1;
            }
            assert(list.deep_view().take(list.len() as int) =~= list.deep_view());
        },
        None => {},
    }
    names
}

/// Whether `names` holds `text`.
fn holds_name(names: &Vec<String>, text: &String) -> (r: bool)
    ensures
        r == names.deep_view().contains(text@),
{
    let mut i: usize = 0;
    while i < names.len()
        invariant
            i <= names.len(),
            forall|j: int| 0 <= j < i ==> names.deep_view()[j] != text@,
        decreases names.len() - i,
    {
        assert(names.deep_view()[i as int] == names@[i as int]@);
        if names[i] == *text {
            return true;
        }
        i += 1;
    }
    false
}

/// Finds the first token at or after `at` that is no whitespace.
fn skip_whitespace(tokens: &Vec<BodyToken>, at: usize) -> (r: usize)
    requires
        at <= tokens.len(),
    ensures
        r == next_solid(tokens.deep_view(), at as int),
        at <= r <= tokens.len(),
{
    let mut r: usize = at;
    while r < tokens.len() && tokens[r].kind == Some(CodeToken::Whitespace)
        invariant
            at <= r <= tokens.len(),
            next_solid(tokens.deep_view(), at as int) == next_solid(tokens.deep_view(), r as int),
        decreases tokens.len() - r,
    {
        assert(tokens.deep_view()[r as int] == tokens@[r as int].deep_view());
        r += 1;
    }
    proof {
        if r < tokens.len() {
            assert(tokens.deep_view()[r as int] == tokens@[r as int].deep_view());
        }
    }
    r
}

/// Reads a reference at `tokens[*i]` and moves `i` to its last token.
#[verifier::loop_isolation(false)]
pub fn parse_mmgx_object_body(
    tokens: &Vec<BodyToken>,
    i: &mut usize,
    params: &Option<Vec<TemplateParameter>>,
    args: &Option<Vec<String>>,
) -> (r: Option<BodyStatement>)
    ensures
        match classify_reference(
            tokens.deep_view(),
            *old(i) as int,
            params.deep_view(),
            args.deep_view(),
        ) {
            Some((stmt, skip)) => r.deep_view() == Some(stmt) && *final(i) == *old(i) + skip
                && *final(i) < tokens.len(),
            None => r is None && *final(i) == *old(i),
        },
{
    let ghost all = tokens.deep_view();
    let at: usize = *i;
    if at >= tokens.len() || at + 1 >= tokens.len() {
        return None;
    }
    assert(all[at as int] == tokens@[at as int].deep_view());
    assert(all[at + 1] == tokens@[at + 1].deep_view());
    let t1 = &tokens[at];
    let t2 = &tokens[at + 1];
    if t2.kind == Some(CodeToken::Dot) || t2.kind == Some(CodeToken::ScopeResolution) {
        if at + 2 >= tokens.len() {
            return None;
        }
        assert(all[at + 2] == tokens@[at + 2].deep_view());
        let t3 = &tokens[at + 2];
        if t3.kind == Some(CodeToken::Name) && (t1.kind == Some(CodeToken::Name) || t1.kind
            == Some(CodeToken::Identifier)) {
            *i = at + 2;
            Some(
                BodyStatement::External(
                    External {
                        module: t1.text.clone(),
                        object: t3.text.clone(),
                        implement: t2.kind == Some(CodeToken::Dot),
                    },
                ),
            )
        } else {
            None
        }
    } else if t2.kind == Some(CodeToken::DiamondOpen) && t1.kind == Some(CodeToken::Name) {
        let first = skip_whitespace(tokens, at + 2);
        if first < tokens.len() && tokens[first].kind == Some(CodeToken::DiamondClose) {
            assert(all[first as int] == tokens@[first as int].deep_view());
            *i = first;
            let list: Vec<String> = Vec::new();
            assert(list.deep_view() =~= Seq::<Seq<char>>::empty());
            return Some(
                BodyStatement::TemplateCall(TemplateCall { name: t1.text.clone(), args: list }),
            );
        }
        proof {
            if first < tokens.len() {
                assert(all[first as int] == tokens@[first as int].deep_view());
            }
        }
        let names = gather_call_names(params, args);
        let ghost known = names.deep_view();
        let mut list: Vec<String> = Vec::new();
        assert(list.deep_view() =~= Seq::<Seq<char>>::empty());
        let mut place: usize = at + 2;
        loop
            invariant
                *i == at,
                at + 2 <= place <= tokens.len(),
                call_args(all, known, place as int, list.deep_view()) == call_args(
                    all,
                    known,
                    at + 2,
                    Seq::empty(),
                ),
            decreases tokens.len() - place,
        {
            let arg = skip_whitespace(tokens, place);
            if arg >= tokens.len() {
                return None;
            }
            assert(all[arg as int] == tokens@[arg as int].deep_view());
            if tokens[arg].kind != Some(CodeToken::Name) || !holds_name(&names, &tokens[arg].text) {
                return None;
            }
            let sep = skip_whitespace(tokens, arg + 1);
            if sep >= tokens.len() {
                return None;
            }
            assert(all[sep as int] == tokens@[sep as int].deep_view());
            let ghost before = list.deep_view();
            if tokens[sep].kind == Some(CodeToken::DiamondClose) {
                list.push(tokens[arg].text.clone());
                assert(list.deep_view() =~= before.push(all[arg as int].text));
                *i = sep;
                return Some(
                    BodyStatement::TemplateCall(
                        TemplateCall { name: t1.text.clone(), args: list },
                    ),
                );
            } else if tokens[sep].kind == Some(CodeToken::Comma) {
                list.push(tokens[arg].text.clone());
                assert(list.deep_view() =~= before.push(all[arg as int].text));
                place = sep + 1;
            } else {
                return None;
            }
        }
    } else {
        None
    }
}

/// Finds the value slot of the parameter called `name`.
fn find_bound_slot(params: &Option<Vec<TemplateParameter>>, name: &String) -> (r: Option<usize>)
    ensures
        match r {
            Some(slot) => bound_slot(params.deep_view(), name@) == Some(slot as int),
            None => bound_slot(params.deep_view(), name@) is None,
        },
{
    match params {
        Some(list) => lookup_slot(list, name),
        None => None,
    }
}

/// Classifies the tokens of a macro body into fragments.
#[verifier::loop_isolation(false)]
pub fn parse_body(
    tokens: Vec<BodyToken>,
    params: &Option<Vec<TemplateParameter>>,
    args: &Option<Vec<String>>,
    va_args: bool,
) -> (res: Vec<BodyStatement>)
    ensures
        res.deep_view() == body_fragments(
            tokens.deep_view(),
            params.deep_view(),
            args.deep_view(),
            va_args,
        ),
{
    let ghost all = tokens.deep_view();
    let ghost pv = params.deep_view();
    let ghost av = args.deep_view();
    let mut tmp = String::new();
    let mut res: Vec<BodyStatement> = Vec::new();
    let mut i: usize = 0;
    assert(res.deep_view() =~= Seq::<BodyStatementView>::empty());
    while i < tokens.len()
        invariant
            all == tokens.deep_view(),
            pv == params.deep_view(),
            av == args.deep_view(),
            classify_body(all, pv, av, va_args, i as int, tmp@, res.deep_view()) == body_fragments(
                all,
                pv,
                av,
                va_args,
            ),
        decreases tokens.len() - i,
    {
        assert(all[i as int] == tokens@[i as int].deep_view());
        let ghost before = res.deep_view();
        let t = &tokens[i];
        if t.kind == Some(CodeToken::VaArgs) {
            if va_args {
                tmp.append("__VA_ARGS__");
            } else {
                tmp.append(t.text.as_str());
            }
            i += 1;
        } else if t.kind == Some(CodeToken::Name) {
            let ghost text_before = tmp@;
            res.push(BodyStatement::Expand(tmp));
            tmp = String::new();
            let ghost flushed = res.deep_view();
            assert(flushed =~= before.push(BodyStatementView::Expand(text_before)));
            match find_bound_slot(params, &t.text) {
                Some(index) => {
                    res.push(BodyStatement::Parameter(index));
                    assert(res.deep_view() =~= flushed.push(BodyStatementView::Parameter(index)));
                    assert(classify_body(all, pv, av, va_args, i + 1, tmp@, res.deep_view())
                        == classify_body(all, pv, av, va_args, i as int, text_before, before));
                    i += 1;
                },
                None => {
                    let mut at: usize = i;
                    match parse_mmgx_object_body(&tokens, &mut at, params, args) {
                        Some(stmt) => {
                            let ghost sv = stmt.deep_view();
                            res.push(stmt);
                            assert(res.deep_view() =~= flushed.push(sv));
                            let ghost here = i as int;
                            let ghost now = res.deep_view();
                            assert(classify_body(all, pv, av, va_args, at + 1, tmp@, now)
                                == classify_body(all, pv, av, va_args, here, text_before, before));
                            i = at + 1;
                        },
                        None => {
                            res.push(BodyStatement::OptDependency(t.text.clone()));
                            assert(res.deep_view() =~= flushed.push(
                                BodyStatementView::OptDependency(t.text@),
                            ));
                            let ghost now = res.deep_view();
                            assert(classify_body(all, pv, av, va_args, i + 1, tmp@, now)
                                == classify_body(all, pv, av, va_args, i as int, text_before, before));
                            i += 1;
                        },
                    }
                },
            }
        } else {
            tmp.append(t.text.as_str());
            i += 1;
        }
    }
    res.push(BodyStatement::Expand(tmp));
    res
}

} // verus!
