//! Object and template definitions: `Name<params>(args) body`.

use crate::ast::{
    BodyStatement, BodyStatementView, Object, ObjectView, Statement, StatementView, Template,
    TemplateParameter, TemplateParameterView, TemplateView,
};
use crate::error::{ParseError, ParseErrorView};
use crate::lexer::{Input, Lexer};
use crate::parse::body::{body_fragments, parse_body, BodyToken, BodyTokenView};
use crate::parse::params::{
    lemma_read_parameters_forward, parse_mmgx_parameters, read_parameters,
};
use crate::text::{append_joined, joined};
use crate::token::CodeToken;
use vstd::prelude::*;
use vstd::string::*;

verus! {

/// The first text of every parameter of `list`.
pub open spec fn first_texts(list: Seq<Seq<Seq<char>>>) -> Seq<Seq<char>> {
    Seq::new(
        list.len(),
        |i: int|
            if list[i].len() > 0 {
                list[i][0]
            } else {
                Seq::empty()
            },
    )
}

/// The position of the first entry `Param(name)` in `params[from..]`.
pub open spec fn param_position(
    params: Seq<TemplateParameterView>,
    name: Seq<char>,
    from: int,
) -> Option<int>
    decreases params.len() - from,
{
    if from < 0 || from >= params.len() {
        None
    } else if params[from] == TemplateParameterView::Param(name) {
        Some(from)
    } else {
        param_position(params, name, from + 1)
    }
}

/// The parameter list that the names `names[from..]` make, appended to `acc`:
/// a name is a `Param`, unless it repeats an earlier one, which makes it a
/// `Reference` to the position of that one.
pub open spec fn template_params(
    names: Seq<Seq<char>>,
    from: int,
    acc: Seq<TemplateParameterView>,
) -> Seq<TemplateParameterView>
    decreases names.len() - from,
{
    if from < 0 || from >= names.len() {
        acc
    } else {
        match param_position(acc, names[from], 0) {
            Some(index) => template_params(
                names,
                from + 1,
                acc.push(TemplateParameterView::Reference(index as usize)),
            ),
            None => template_params(
                names,
                from + 1,
                acc.push(TemplateParameterView::Param(names[from])),
            ),
        }
    }
}

/// The parameter list `<..>` of a template, where the current token opens
/// one, and the number of tokens read once the token after it is current.
pub open spec fn read_template_params(inp: Input, pos: int) -> Result<
    (Option<Seq<TemplateParameterView>>, int),
    (ParseErrorView, int),
> {
    if inp.current(pos).kind == Some(CodeToken::DiamondOpen) {
        match read_parameters(
            inp,
            pos,
            seq![seq![CodeToken::Name]],
            CodeToken::DiamondClose,
            Seq::empty(),
            Seq::empty(),
        ) {
            Err(failure) => Err(failure),
            Ok((list, end)) => Ok(
                (Some(template_params(first_texts(list), 0, Seq::empty())), inp.advance(end)),
            ),
        }
    } else {
        Ok((None, pos))
    }
}

/// The argument list `(..)` of a macro, where the current token opens one,
/// and the number of tokens read once the token after it is current.
pub open spec fn read_arguments(inp: Input, pos: int) -> Result<
    (Option<Seq<Seq<char>>>, int),
    (ParseErrorView, int),
> {
    if inp.current(pos).kind == Some(CodeToken::ParenOpen) {
        match read_parameters(
            inp,
            pos,
            seq![seq![CodeToken::Name], seq![CodeToken::VaArgs]],
            CodeToken::ParenClose,
            Seq::empty(),
            Seq::empty(),
        ) {
            Err(failure) => Err(failure),
            Ok((list, end)) => Ok((Some(first_texts(list)), inp.advance(end))),
        }
    } else {
        Ok((None, pos))
    }
}

/// The tokens from the current one up to the line break or the end of the
/// text, appended to `acc`, and the number of tokens read after them.
pub open spec fn line_tokens(inp: Input, pos: int, acc: Seq<BodyTokenView>) -> (
    Seq<BodyTokenView>,
    int,
)
    decreases inp.left(pos),
{
    match inp.current(pos).kind {
        Some(kind) => if kind == CodeToken::NewLine {
            (acc, pos)
        } else {
            line_tokens(
                inp,
                inp.advance(pos),
                acc.push(BodyTokenView { kind: Some(kind), text: inp.slice(pos) }),
            )
        },
        None => (acc, pos),
    }
}

/// What an argument list puts in front of the body: `(` and the arguments
/// with the closing `)`.
pub open spec fn argument_text(args: Option<Seq<Seq<char>>>) -> Seq<BodyStatementView> {
    match args {
        Some(list) => seq![
            BodyStatementView::Expand("("@),
            BodyStatementView::Expand(joined(list, ", "@) + ")"@),
        ],
        None => Seq::empty(),
    }
}

/// Whether the arguments end in `...` or hold it elsewhere.
pub open spec fn has_va_args(args: Option<Seq<Seq<char>>>) -> bool {
    match args {
        Some(list) => list.contains("..."@),
        None => false,
    }
}

/// Reads a definition whose name is the current token: an optional parameter
/// list `<..>`, an optional argument list `(..)` and the body, which is the
/// rest of the line.  With a parameter list it is a template.  A failure
/// comes with the number of tokens read when it was found.
pub open spec fn read_object(inp: Input, pos: int) -> Result<
    (StatementView, int),
    (ParseErrorView, int),
> {
    let name = inp.slice(pos);
    match read_template_params(inp, inp.advance(pos)) {
        Err(failure) => Err(failure),
        Ok((params, after_params)) => match read_arguments(inp, after_params) {
            Err(failure) => Err(failure),
            Ok((args, after_args)) => {
                let (tokens, end) = line_tokens(inp, after_args, Seq::empty());
                let obj = ObjectView {
                    name,
                    body: argument_text(args) + body_fragments(
                        tokens,
                        params,
                        args,
                        has_va_args(args),
                    ),
                };
                match params {
                    Some(list) => Ok(
                        (StatementView::Template(TemplateView { params: list, obj }), end),
                    ),
                    None => Ok((StatementView::Object(obj), end)),
                }
            },
        },
    }
}

/// Reading the rest of a line never goes back.
pub proof fn lemma_line_tokens_forward(inp: Input, pos: int, acc: Seq<BodyTokenView>)
    ensures
        line_tokens(inp, pos, acc).1 >= pos,
    decreases inp.left(pos),
{
    match inp.current(pos).kind {
        Some(kind) => {
            if kind == CodeToken::NewLine {
            } else {
                lemma_line_tokens_forward(
                    inp,
                    inp.advance(pos),
                    acc.push(BodyTokenView { kind: Some(kind), text: inp.slice(pos) }),
                );
            }
        },
        None => {},
    }
}

/// Reading a definition never goes back.
pub proof fn lemma_read_object_forward(inp: Input, pos: int)
    ensures
        match read_object(inp, pos) {
            Ok((_, end)) => end >= pos,
            Err(_) => true,
        },
{
    let start = inp.advance(pos);
    lemma_read_parameters_forward(
        inp,
        start,
        seq![seq![CodeToken::Name]],
        CodeToken::DiamondClose,
        Seq::empty(),
        Seq::empty(),
    );
    match read_template_params(inp, start) {
        Err(_) => {},
        Ok((params, after_params)) => {
            lemma_read_parameters_forward(
                inp,
                after_params,
                seq![seq![CodeToken::Name], seq![CodeToken::VaArgs]],
                CodeToken::ParenClose,
                Seq::empty(),
                Seq::empty(),
            );
            match read_arguments(inp, after_params) {
                Err(_) => {},
                Ok((args, after_args)) => {
                    lemma_line_tokens_forward(inp, after_args, Seq::empty());
                },
            }
        },
    }
}

/// The first text of every parameter.
fn take_first_texts(list: Vec<Vec<String>>) -> (r: Vec<String>)
    ensures
        r.deep_view() == first_texts(list.deep_view()),
{
    let mut r: Vec<String> = Vec::new();
    let mut i: usize = 0;
    while i < list.len()
        invariant
            i <= list.len(),
            r.len() == i,
            forall|j: int|
                0 <= j < i ==> #[trigger] r@[j]@ == (if list@[j].len() > 0 {
                    list@[j]@[0]@
                } else {
                    Seq::empty()
                }),
        decreases list.len() - i,
    {
        if list[i].len() > 0 {
            r.push(list[i][0].clone());
        } else {
            r.push(String::new());
        }
        i += 1;
    }
    assert(r.deep_view() =~= first_texts(list.deep_view())) by {
        assert forall|j: int| 0 <= j < list.len() implies #[trigger] r.deep_view()[j]
            == first_texts(list.deep_view())[j] by {
            assert(list.deep_view()[j] == list@[j].deep_view());
            if list@[j].len() > 0 {
                assert(list@[j].deep_view()[0] == list@[j]@[0]@);
            }
        }
    }
    r
}

/// Finds the position of the first entry `Param(name)`.
fn position_of(params: &Vec<TemplateParameter>, name: &String) -> (r: Option<usize>)
    ensures
        match r {
            Some(index) => param_position(params.deep_view(), name@, 0) == Some(index as int),
            None => param_position(params.deep_view(), name@, 0) is None,
        },
{
    let mut i: usize = 0;
    while i < params.len()
        invariant
            i <= params.len(),
            param_position(params.deep_view(), name@, 0) == param_position(
                params.deep_view(),
                name@,
                i as int,
            ),
        decreases params.len() - i,
    {
        assert(params.deep_view()[i as int] == params@[i as int].deep_view());
        match &params[i] {
            TemplateParameter::Param(param) => {
                if *param == *name {
                    return Some(i);
                }
            },
            TemplateParameter::Reference(_) => {},
        }
        i += 1;
    }
    None
}

/// Makes the parameter list of a template out of the names written.
fn make_template_params(names: Vec<String>) -> (r: Vec<TemplateParameter>)
    ensures
        r.deep_view() == template_params(names.deep_view(), 0, Seq::empty()),
{
    let ghost all = names.deep_view();
    let mut r: Vec<TemplateParameter> = Vec::new();
    assert(r.deep_view() =~= Seq::<TemplateParameterView>::empty());
    let mut i: usize = 0;
    while i < names.len()
        invariant
            i <= names.len(),
            all == names.deep_view(),
            template_params(all, i as int, r.deep_view()) == template_params(
                all,
                0,
                Seq::empty(),
            ),
        decreases names.len() - i,
    {
        assert(all[i as int] == names@[i as int]@);
        let ghost before = r.deep_view();
        match position_of(&r, &names[i]) {
            Some(index) => {
                r.push(TemplateParameter::Reference(index));
                assert(r.deep_view() =~= before.push(TemplateParameterView::Reference(index)));
            },
            None => {
                r.push(TemplateParameter::Param(names[i].clone()));
                assert(r.deep_view() =~= before.push(TemplateParameterView::Param(all[i as int])));
            },
        }
        i += 1;
    }
    r
}

/// Whether `list` holds `...`.
fn holds_va_args(list: &Vec<String>) -> (r: bool)
    ensures
        r == list.deep_view().contains("..."@),
{
    let dots = String::from_str("...");
    let mut i: usize = 0;
    while i < list.len()
        invariant
            i <= list.len(),
            dots@ == "..."@,
            forall|j: int| 0 <= j < i ==> list.deep_view()[j] != "..."@,
        decreases list.len() - i,
    {
        assert(list.deep_view()[i as int] == list@[i as int]@);
        if list[i] == dots {
            return true;
        }
        i += 1;
    }
    false
}

/// Reads a definition; the current token of `lex` is its name.
#[verifier::loop_isolation(false)]
pub fn parse_mmgx_object(lex: &mut Lexer) -> (r: Result<Statement, ParseError>)
    requires
        old(lex).wf(),
    ensures
        final(lex).wf(),
        final(lex).input() == old(lex).input(),
        final(lex).pos >= old(lex).pos,
        match read_object(old(lex).input(), old(lex).pos as int) {
            Ok((stmt, pos)) => r matches Ok(s) && s.deep_view() == stmt && final(lex).pos == pos,
            Err((failure, pos)) => r matches Err(e) && e.deep_view() == failure && final(lex).pos
                == pos,
        },
{
    let ghost inp = lex.input();
    let name = lex.slice();
    let mut t = lex.next();
    let mut params: Option<Vec<TemplateParameter>> = None;
    let mut args: Option<Vec<String>> = None;
    let mut body: Vec<BodyStatement> = Vec::new();
    let mut va_args = false;
    if t == Some(CodeToken::DiamondOpen) {
        let mut capture: Vec<Vec<CodeToken>> = Vec::new();
        let mut variant: Vec<CodeToken> = Vec::new();
        variant.push(CodeToken::Name);
        capture.push(variant);
        assert(capture.deep_view() =~= seq![seq![CodeToken::Name]]) by {
            assert(capture.deep_view()[0] =~= seq![CodeToken::Name]);
        }
        let list = match parse_mmgx_parameters(lex, &capture, CodeToken::DiamondClose) {
            Ok(list) => list,
            Err(e) => {
                return Err(e);
            },
        };
        params = Some(make_template_params(take_first_texts(list)));
        t = lex.next();
    }
    assert(read_template_params(inp, inp.advance(old(lex).pos as int)) == Ok::<
        (Option<Seq<TemplateParameterView>>, int),
        (ParseErrorView, int),
    >((params.deep_view(), lex.pos as int)));
    if t == Some(CodeToken::ParenOpen) {
        let mut capture: Vec<Vec<CodeToken>> = Vec::new();
        let mut names: Vec<CodeToken> = Vec::new();
        names.push(CodeToken::Name);
        capture.push(names);
        let mut dots: Vec<CodeToken> = Vec::new();
        dots.push(CodeToken::VaArgs);
        capture.push(dots);
        assert(capture.deep_view() =~= seq![seq![CodeToken::Name], seq![CodeToken::VaArgs]]) by {
            assert(capture.deep_view()[0] =~= seq![CodeToken::Name]);
            assert(capture.deep_view()[1] =~= seq![CodeToken::VaArgs]);
        }
        let list = match parse_mmgx_parameters(lex, &capture, CodeToken::ParenClose) {
            Ok(list) => take_first_texts(list),
            Err(e) => {
                return Err(e);
            },
        };
        va_args = holds_va_args(&list);
        body.push(BodyStatement::Expand(String::from_str("(")));
        let mut text = String::new();
        append_joined(&mut text, &list, ", ");
        text.append(")");
        body.push(BodyStatement::Expand(text));
        args = Some(list);
        t = lex.next();
    }
    let ghost after_params = match read_template_params(inp, inp.advance(old(lex).pos as int)) {
        Ok((_, pos)) => pos,
        Err(_) => 0,
    };
    assert(read_arguments(inp, after_params) == Ok::<
        (Option<Seq<Seq<char>>>, int),
        (ParseErrorView, int),
    >((args.deep_view(), lex.pos as int)));
    assert(body.deep_view() =~= argument_text(args.deep_view()));
    assert(va_args == has_va_args(args.deep_view()));
    let ghost after_args = lex.pos as int;
    let mut body_tokens: Vec<BodyToken> = Vec::new();
    assert(body_tokens.deep_view() =~= Seq::<BodyTokenView>::empty());
    while t.is_some() && t != Some(CodeToken::NewLine)
        invariant
            lex.wf(),
            lex.input() == inp,
            lex.pos >= after_args,
            t == inp.current(lex.pos as int).kind,
            line_tokens(inp, lex.pos as int, body_tokens.deep_view()) == line_tokens(
                inp,
                after_args,
                Seq::empty(),
            ),
        decreases lex.tokens.len() - lex.pos,
    {
        let ghost pending = body_tokens.deep_view();
        let ghost here = lex.pos as int;
        body_tokens.push(BodyToken { kind: t, text: lex.slice() });
        assert(body_tokens.deep_view() =~= pending.push(
            BodyTokenView { kind: t, text: inp.slice(here) },
        ));
        assert(lex.pos < lex.tokens.len()) by {
            assert(lex.tokens@[lex.pos - 1].kind is Some);
        }
        t = lex.next();
    }
    let ghost feedback = body.deep_view();
    let mut fragments = parse_body(body_tokens, &params, &args, va_args);
    let ghost fv = fragments.deep_view();
    body.append(&mut fragments);
    assert(body.deep_view() =~= feedback + fv);
    let obj = Object { name, body };
    match params {
        Some(list) => Ok(Statement::Template(Template { params: list, obj })),
        None => Ok(Statement::Object(obj)),
    }
}

} // verus!
