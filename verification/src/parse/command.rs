//! Commands: `@use`, `@export` and `@impl`.

use crate::ast::{
    Command, CommandImpl, CommandImplView, CommandView, ImplRange, Statement, StatementView,
};
use crate::debug::{debug_template, debug_template_string};
use crate::error::{ParseError, ParseErrorKind, ParseErrorKindView, ParseErrorView};
use crate::lexer::{lemma_skip_blank_forward, Input, Lexer, LexerInfo};
use crate::parse::object::{lemma_read_object_forward, parse_mmgx_object, read_object};
use crate::parse::params::{
    lemma_read_parameters_forward, parse_mmgx_parameters, read_parameters,
};
use crate::text::{number_value, parse_number};
use crate::token::CodeToken;
use vstd::prelude::*;
use vstd::string::*;

verus! {

/// The text at `at` of a parameter, or no text where it has none.
pub open spec fn text_at(param: Seq<Seq<char>>, at: int) -> Seq<char> {
    if 0 <= at < param.len() {
        param[at]
    } else {
        Seq::empty()
    }
}

/// The failure of a range bound that is no number of the machine's size,
/// reported at the current token.
pub open spec fn bad_bound(inp: Input, pos: int, text: Seq<char>) -> ParseErrorView {
    inp.create(
        pos,
        ParseErrorKindView::WrongArgument {
            function: "@impl"@,
            got: text,
            expected: seq!["Number"@],
        },
    )
}

/// The ranges that the parameters `list[from..]` stand for, appended to `acc`.
/// A parameter is the texts of a number, `..` and a number.
pub open spec fn read_ranges(
    inp: Input,
    pos: int,
    list: Seq<Seq<Seq<char>>>,
    from: int,
    acc: Seq<ImplRange>,
) -> Result<Seq<ImplRange>, ParseErrorView>
    decreases list.len() - from,
{
    if from < 0 || from >= list.len() {
        Ok(acc)
    } else {
        match number_value(text_at(list[from], 0)) {
            None => Err(bad_bound(inp, pos, text_at(list[from], 0))),
            Some(first) => match number_value(text_at(list[from], 2)) {
                None => Err(bad_bound(inp, pos, text_at(list[from], 2))),
                Some(last) => read_ranges(
                    inp,
                    pos,
                    list,
                    from + 1,
                    acc.push(ImplRange { first, last }),
                ),
            },
        }
    }
}

/// Reads what follows `impl`: the name of a template, the ranges in `<..>`
/// and the line break.  A failure comes with the number of tokens read when
/// it was found.
pub open spec fn read_impl(inp: Input, pos: int) -> Result<
    (CommandImplView, int),
    (ParseErrorView, int),
> {
    let at_name = inp.skip_blank(pos);
    if inp.current(at_name).kind == Some(CodeToken::Name) {
        let at_open = inp.advance(at_name);
        if inp.current(at_open).kind == Some(CodeToken::DiamondOpen) {
            match read_parameters(
                inp,
                at_open,
                seq![seq![CodeToken::Number, CodeToken::Range, CodeToken::Number]],
                CodeToken::DiamondClose,
                Seq::empty(),
                Seq::empty(),
            ) {
                Err(failure) => Err(failure),
                Ok((list, at_close)) => match read_ranges(inp, at_close, list, 0, Seq::empty()) {
                    Err(failure) => Err((failure, at_close)),
                    Ok(ranges) => {
                        let end = inp.advance(at_close);
                        if inp.current(end).kind == Some(CodeToken::NewLine) {
                            Ok(
                                (
                                    CommandImplView {
                                        template: inp.slice(at_name),
                                        params: ranges,
                                    },
                                    end,
                                ),
                            )
                        } else {
                            Err(
                                (
                                    inp.unexpected_token(
                                        end,
                                        inp.current(end).kind,
                                        seq![CodeToken::Name],
                                    ),
                                    end,
                                ),
                            )
                        }
                    },
                },
            }
        } else {
            Err(
                (
                    inp.unexpected_token(
                        at_open,
                        inp.current(at_open).kind,
                        seq![CodeToken::DiamondOpen],
                    ),
                    at_open,
                ),
            )
        }
    } else {
        Err(
            (
                inp.unexpected_token(at_name, inp.current(at_name).kind, seq![CodeToken::Name]),
                at_name,
            ),
        )
    }
}

/// Reads a command; the current token is `@`.
///
/// `export` takes a definition that is no template, `use` the name of a
/// module, `impl` a template's name and ranges.  A failure comes with the
/// number of tokens read when it was found.
pub open spec fn read_command(inp: Input, pos: int) -> Result<
    (StatementView, int),
    (ParseErrorView, int),
> {
    let at_word = inp.advance(pos);
    if inp.current(at_word).kind == Some(CodeToken::Name) {
        let word = inp.slice(at_word);
        if word == "export"@ {
            let at_name = inp.skip_blank(at_word);
            match read_object(inp, at_name) {
                Err(failure) => Err(failure),
                Ok((stmt, end)) => match stmt {
                    StatementView::Object(obj) => Ok(
                        (StatementView::Command(CommandView::Export(obj)), end),
                    ),
                    StatementView::Template(template) => Err(
                        (
                            inp.wrong_argument(
                                end,
                                LexerInfo::of(inp.current(at_name)),
                                "@export"@,
                                "Template("@ + debug_template(template) + ")"@,
                                seq!["Object"@],
                            ),
                            end,
                        ),
                    ),
                    _ => Err(
                        (
                            inp.wrong_argument(
                                end,
                                LexerInfo::of(inp.current(at_name)),
                                "@export"@,
                                Seq::empty(),
                                seq!["Object"@],
                            ),
                            end,
                        ),
                    ),
                },
            }
        } else if word == "use"@ {
            let at_name = inp.skip_blank(at_word);
            let kind = inp.current(at_name).kind;
            if kind == Some(CodeToken::Identifier) || kind == Some(CodeToken::Name) {
                Ok((StatementView::Command(CommandView::Use(inp.slice(at_name))), at_name))
            } else {
                Err(
                    (
                        inp.unexpected_token(
                            at_name,
                            kind,
                            seq![CodeToken::Identifier, CodeToken::Name],
                        ),
                        at_name,
                    ),
                )
            }
        } else if word == "impl"@ {
            match read_impl(inp, at_word) {
                Err(failure) => Err(failure),
                Ok((cmd, end)) => Ok((StatementView::Command(CommandView::Impl(cmd)), end)),
            }
        } else {
            Err((inp.unknown_command(at_word), at_word))
        }
    } else {
        Err(
            (
                inp.unexpected_token(at_word, inp.current(at_word).kind, seq![CodeToken::Name]),
                at_word,
            ),
        )
    }
}

/// Reading a command never goes back.
pub proof fn lemma_read_command_forward(inp: Input, pos: int)
    ensures
        match read_command(inp, pos) {
            Ok((_, end)) => end >= pos,
            Err(_) => true,
        },
{
    let at_word = inp.advance(pos);
    lemma_skip_blank_forward(inp, at_word);
    lemma_read_object_forward(inp, inp.skip_blank(at_word));
    let at_name = inp.skip_blank(at_word);
    lemma_read_parameters_forward(
        inp,
        inp.advance(at_name),
        seq![seq![CodeToken::Number, CodeToken::Range, CodeToken::Number]],
        CodeToken::DiamondClose,
        Seq::empty(),
        Seq::empty(),
    );
}

/// A list of one token kind.
fn one_kind(kind: CodeToken) -> (r: Vec<CodeToken>)
    ensures
        r@ == seq![kind],
{
    let mut r: Vec<CodeToken> = Vec::new();
    r.push(kind);
    assert(r@ =~= seq![kind]);
    r
}

/// The failure of a range bound that is no number of the machine's size.
fn bad_bound_error(lex: &Lexer, text: &String) -> (r: ParseError)
    requires
        lex.wf(),
    ensures
        r.deep_view() == bad_bound(lex.input(), lex.pos as int, text@),
{
    let mut expected: Vec<String> = Vec::new();
    expected.push(String::from_str("Number"));
    assert(expected.deep_view() =~= seq!["Number"@]);
    ParseError::create(
        lex,
        ParseErrorKind::WrongArgument {
            function: String::from_str("@impl"),
            got: text.clone(),
            expected,
        },
    )
}

/// The text at `at` of a parameter.
fn take_text(param: &Vec<String>, at: usize) -> (r: String)
    ensures
        r@ == text_at(param.deep_view(), at as int),
{
    if at < param.len() {
        assert(param.deep_view()[at as int] == param@[at as int]@);
        param[at].clone()
    } else {
        String::new()
    }
}

/// Reads what follows `impl`.
#[verifier::loop_isolation(false)]
pub fn parse_mmgx_impl(lex: &mut Lexer) -> (r: Result<CommandImpl, ParseError>)
    requires
        old(lex).wf(),
    ensures
        final(lex).wf(),
        final(lex).input() == old(lex).input(),
        final(lex).pos >= old(lex).pos,
        match read_impl(old(lex).input(), old(lex).pos as int) {
            Ok((cmd, pos)) => r matches Ok(c) && c.deep_view() == cmd && final(lex).pos == pos,
            Err((failure, pos)) => r matches Err(e) && e.deep_view() == failure && final(lex).pos
                == pos,
        },
{
    let ghost inp = lex.input();
    let t = lex.next_non_whitespace();
    if t != Some(CodeToken::Name) {
        return Err(ParseError::unexpected_token(lex, t, one_kind(CodeToken::Name)));
    }
    let template = lex.slice();
    let token = lex.next();
    if token != Some(CodeToken::DiamondOpen) {
        return Err(ParseError::unexpected_token(lex, token, one_kind(CodeToken::DiamondOpen)));
    }
    let mut capture: Vec<Vec<CodeToken>> = Vec::new();
    let mut variant: Vec<CodeToken> = Vec::new();
    variant.push(CodeToken::Number);
    variant.push(CodeToken::Range);
    variant.push(CodeToken::Number);
    capture.push(variant);
    assert(capture.deep_view() =~= seq![
        seq![CodeToken::Number, CodeToken::Range, CodeToken::Number],
    ]) by {
        assert(capture.deep_view()[0] =~= seq![
            CodeToken::Number,
            CodeToken::Range,
            CodeToken::Number,
        ]);
    }
    let list = match parse_mmgx_parameters(lex, &capture, CodeToken::DiamondClose) {
        Ok(list) => list,
        Err(e) => {
            return Err(e);
        },
    };
    let ghost texts = list.deep_view();
    let ghost at_close = lex.pos as int;
    let mut params: Vec<ImplRange> = Vec::new();
    let mut i: usize = 0;
    while i < list.len()
        invariant
            i <= list.len(),
            lex.wf(),
            lex.input() == inp,
            lex.pos == at_close,
            texts == list.deep_view(),
            read_ranges(inp, at_close, texts, i as int, params@) == read_ranges(
                inp,
                at_close,
                texts,
                0,
                Seq::empty(),
            ),
        decreases list.len() - i,
    {
        assert(texts[i as int] == list@[i as int].deep_view());
        let low = take_text(&list[i], 0);
        let first = match parse_number(low.as_str()) {
            Some(first) => first,
            None => {
                return Err(bad_bound_error(lex, &low));
            },
        };
        let high = take_text(&list[i], 2);
        let last = match parse_number(high.as_str()) {
            Some(last) => last,
            None => {
                return Err(bad_bound_error(lex, &high));
            },
        };
        params.push(ImplRange { first, last });
        i += 1;
    }
    let t = lex.next();
    if t == Some(CodeToken::NewLine) {
        Ok(CommandImpl { template, params })
    } else {
        Err(ParseError::unexpected_token(lex, t, one_kind(CodeToken::Name)))
    }
}

/// Reads a command; the current token of `lex` is `@`.
pub fn parse_mmgx_command(lex: &mut Lexer) -> (r: Result<Statement, ParseError>)
    requires
        old(lex).wf(),
    ensures
        final(lex).wf(),
        final(lex).input() == old(lex).input(),
        final(lex).pos >= old(lex).pos,
        match read_command(old(lex).input(), old(lex).pos as int) {
            Ok((stmt, pos)) => r matches Ok(s) && s.deep_view() == stmt && final(lex).pos == pos,
            Err((failure, pos)) => r matches Err(e) && e.deep_view() == failure && final(lex).pos
                == pos,
        },
{
    let t = lex.next();
    if t != Some(CodeToken::Name) {
        return Err(ParseError::unexpected_token(lex, t, one_kind(CodeToken::Name)));
    }
    let word = lex.slice();
    if word == String::from_str("export") {
        lex.next_non_whitespace();
        let position = LexerInfo::get(lex);
        match parse_mmgx_object(lex) {
            Err(e) => Err(e),
            Ok(Statement::Object(obj)) => Ok(Statement::Command(Command::Export(obj))),
            Ok(other) => {
                let mut got = String::new();
                match &other {
                    Statement::Template(template) => {
                        got.append("Template(");
                        got.append(debug_template_string(template).as_str());
                        got.append(")");
                    },
                    _ => {},
                }
                let mut expected: Vec<String> = Vec::new();
                expected.push(String::from_str("Object"));
                assert(expected.deep_view() =~= seq!["Object"@]);
                proof {
                    if let Statement::Template(template) = other {
                        assert(got@ =~= "Template("@ + debug_template(template.deep_view())
                            + ")"@);
                    } else {
                        assert(got@ =~= Seq::<char>::empty());
                    }
                }
                Err(
                    ParseError::wrong_argument(
                        lex,
                        position,
                        String::from_str("@export"),
                        got,
                        expected,
                    ),
                )
            },
        }
    } else if word == String::from_str("use") {
        let t = lex.next_non_whitespace();
        if t == Some(CodeToken::Identifier) || t == Some(CodeToken::Name) {
            Ok(Statement::Command(Command::Use(lex.slice())))
        } else {
            let mut expected: Vec<CodeToken> = Vec::new();
            expected.push(CodeToken::Identifier);
            expected.push(CodeToken::Name);
            assert(expected@ =~= seq![CodeToken::Identifier, CodeToken::Name]);
            Err(ParseError::unexpected_token(lex, t, expected))
        }
    } else if word == String::from_str("impl") {
        match parse_mmgx_impl(lex) {
            Ok(cmd) => Ok(Statement::Command(Command::Impl(cmd))),
            Err(e) => Err(e),
        }
    } else {
        Err(ParseError::unknown_command(lex))
    }
}

} // verus!
