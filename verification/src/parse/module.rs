//! Module blocks `@Name { .. }` and whole source texts.

use crate::ast::{MmgxModule, ModuleView, Section, SectionView, Statement, StatementView};
use crate::error::{MmgxError, MmgxErrorKindView, MmgxErrorView, ParseError, ParseErrorView};
use crate::lexer::{lemma_skip_blank_forward, Input, Lexer};
use crate::parse::command::{lemma_read_command_forward, parse_mmgx_command, read_command};
use crate::parse::object::{lemma_read_object_forward, parse_mmgx_object, read_object};
use crate::token::CodeToken;
use std::rc::Rc;
use vstd::prelude::*;
use vstd::string::*;

verus! {

/// Reads the statements of a module body up to the closing brace, appended to
/// `acc`, and the number of tokens read.
///
/// A name starts a definition and `@` a command.  Whitespace and line breaks
/// are passed over, comments are kept.  Anything else, and the end of the
/// text, is a failure; a failure comes with the number of tokens read when it
/// was found.
pub open spec fn read_body(inp: Input, pos: int, acc: Seq<StatementView>) -> Result<
    (Seq<StatementView>, int),
    (ParseErrorView, int),
>
    decreases inp.left(pos),
{
    let at = inp.advance(pos);
    let kind = inp.current(at).kind;
    if kind == Some(CodeToken::Name) {
        match read_object(inp, at) {
            Err(failure) => Err(failure),
            Ok((stmt, end)) => {
                proof {
                    lemma_read_object_forward(inp, at);
                }
                read_body(inp, end, acc.push(stmt))
            },
        }
    } else if kind == Some(CodeToken::Modifier) {
        match read_command(inp, at) {
            Err(failure) => Err(failure),
            Ok((stmt, end)) => {
                proof {
                    lemma_read_command_forward(inp, at);
                }
                read_body(inp, end, acc.push(stmt))
            },
        }
    } else if kind == Some(CodeToken::CurleyClose) {
        Ok((acc, at))
    } else if kind == Some(CodeToken::Whitespace) || kind == Some(CodeToken::NewLine) {
        read_body(inp, at, acc)
    } else if kind == Some(CodeToken::Comment) {
        read_body(inp, at, acc.push(StatementView::Comment(inp.slice(at))))
    } else {
        Err((inp.unexpected_token(at, kind, expected_in_body()), at))
    }
}

/// What may start a statement or end the body.
pub open spec fn expected_in_body() -> Seq<CodeToken> {
    seq![CodeToken::Name, CodeToken::Modifier, CodeToken::CurleyClose]
}

/// Reads a module; the current token is `@`.  The module's line is the line
/// of that `@`.
pub open spec fn read_module(inp: Input, pos: int) -> Result<
    (ModuleView, int),
    (ParseErrorView, int),
> {
    let at_name = inp.skip_blank(pos);
    let kind = inp.current(at_name).kind;
    if kind == Some(CodeToken::Identifier) || kind == Some(CodeToken::Name) {
        let at_open = inp.skip_blank(at_name);
        if inp.current(at_open).kind == Some(CodeToken::CurlyOpen) {
            match read_body(inp, at_open, Seq::empty()) {
                Err(failure) => Err(failure),
                Ok((body, end)) => Ok(
                    (
                        ModuleView { name: inp.slice(at_name), body, line: inp.current(pos).line },
                        end,
                    ),
                ),
            }
        } else {
            Err(
                (
                    inp.unexpected_token(
                        at_open,
                        inp.current(at_open).kind,
                        seq![CodeToken::CurlyOpen],
                    ),
                    at_open,
                ),
            )
        }
    } else {
        Err((inp.unexpected_token(at_name, kind, seq![CodeToken::Identifier]), at_name))
    }
}

/// Reading a module body never goes back.
pub proof fn lemma_read_body_forward(inp: Input, pos: int, acc: Seq<StatementView>)
    ensures
        match read_body(inp, pos, acc) {
            Ok((_, end)) => end >= pos,
            Err(_) => true,
        },
    decreases inp.left(pos),
{
    let at = inp.advance(pos);
    let kind = inp.current(at).kind;
    if kind == Some(CodeToken::Name) {
        lemma_read_object_forward(inp, at);
        match read_object(inp, at) {
            Err(_) => {},
            Ok((stmt, end)) => lemma_read_body_forward(inp, end, acc.push(stmt)),
        }
    } else if kind == Some(CodeToken::Modifier) {
        lemma_read_command_forward(inp, at);
        match read_command(inp, at) {
            Err(_) => {},
            Ok((stmt, end)) => lemma_read_body_forward(inp, end, acc.push(stmt)),
        }
    } else if kind == Some(CodeToken::CurleyClose) {
    } else if kind == Some(CodeToken::Whitespace) || kind == Some(CodeToken::NewLine) {
        lemma_read_body_forward(inp, at, acc);
    } else if kind == Some(CodeToken::Comment) {
        lemma_read_body_forward(inp, at, acc.push(StatementView::Comment(inp.slice(at))));
    }
}

/// Reading a module never goes back.
pub proof fn lemma_read_module_forward(inp: Input, pos: int)
    ensures
        match read_module(inp, pos) {
            Ok((_, end)) => end >= pos,
            Err(_) => true,
        },
{
    lemma_skip_blank_forward(inp, pos);
    let at_name = inp.skip_blank(pos);
    lemma_skip_blank_forward(inp, at_name);
    lemma_read_body_forward(inp, inp.skip_blank(at_name), Seq::empty());
}

/// `acc` with `text` added to its last section where that is source text,
/// and with a new section of source text otherwise.
pub open spec fn with_source(acc: Seq<SectionView>, text: Seq<char>) -> Seq<SectionView> {
    if acc.len() > 0 && acc.last() is CSource {
        acc.drop_last().push(SectionView::CSource(acc.last()->CSource_0 + text))
    } else {
        acc.push(SectionView::CSource(text))
    }
}

/// Reads the sections of a text from the token after `pos` on, appended to
/// `acc`: `@` starts a module, every other token is source text.
pub open spec fn read_sections(inp: Input, pos: int, acc: Seq<SectionView>) -> Result<
    Seq<SectionView>,
    ParseErrorView,
>
    decreases inp.left(pos),
{
    let at = inp.advance(pos);
    match inp.current(at).kind {
        None => Ok(acc),
        Some(kind) => if kind == CodeToken::Modifier {
            match read_module(inp, at) {
                Err((failure, _)) => Err(failure),
                Ok((module, end)) => {
                    proof {
                        lemma_read_module_forward(inp, at);
                    }
                    read_sections(inp, end, acc.push(SectionView::MmgxModule(module)))
                },
            }
        } else {
            read_sections(inp, at, with_source(acc, inp.slice(at)))
        },
    }
}

/// The sections of the source text `src`.
pub open spec fn parse_sections(src: Seq<char>) -> Result<Seq<SectionView>, ParseErrorView> {
    read_sections(Input::of(src), 0, Seq::empty())
}

fn body_expectation() -> (r: Vec<CodeToken>)
    ensures
        r@ == expected_in_body(),
{
    let mut r: Vec<CodeToken> = Vec::new();
    r.push(CodeToken::Name);
    r.push(CodeToken::Modifier);
    r.push(CodeToken::CurleyClose);
    assert(r@ =~= expected_in_body());
    r
}

/// Reads the statements of a module body up to the closing brace.
pub fn parse_mmgx_body(lex: &mut Lexer) -> (r: Result<Vec<Statement>, ParseError>)
    requires
        old(lex).wf(),
    ensures
        final(lex).wf(),
        final(lex).input() == old(lex).input(),
        final(lex).pos >= old(lex).pos,
        match read_body(old(lex).input(), old(lex).pos as int, Seq::empty()) {
            Ok((body, pos)) => r matches Ok(b) && b.deep_view() == body && final(lex).pos == pos,
            Err((failure, pos)) => r matches Err(e) && e.deep_view() == failure && final(lex).pos
                == pos,
        },
{
    let ghost inp = lex.input();
    let mut statements: Vec<Statement> = Vec::new();
    assert(statements.deep_view() =~= Seq::<StatementView>::empty());
    loop
        invariant
            lex.wf(),
            lex.input() == inp,
            inp == old(lex).input(),
            lex.pos >= old(lex).pos,
            read_body(inp, lex.pos as int, statements.deep_view()) == read_body(
                inp,
                old(lex).pos as int,
                Seq::empty(),
            ),
        decreases lex.tokens.len() - lex.pos,
    {
        let ghost before = statements.deep_view();
        match lex.next() {
            Some(CodeToken::Name) => {
                match parse_mmgx_object(lex) {
                    Ok(stmt) => {
                        let ghost sv = stmt.deep_view();
                        statements.push(stmt);
                        assert(statements.deep_view() =~= before.push(sv));
                    },
                    Err(e) => {
                        return Err(e);
                    },
                }
            },
            Some(CodeToken::Modifier) => {
                match parse_mmgx_command(lex) {
                    Ok(stmt) => {
                        let ghost sv = stmt.deep_view();
                        statements.push(stmt);
                        assert(statements.deep_view() =~= before.push(sv));
                    },
                    Err(e) => {
                        return Err(e);
                    },
                }
            },
            Some(CodeToken::CurleyClose) => {
                return Ok(statements);
            },
            Some(CodeToken::Whitespace) | Some(CodeToken::NewLine) => {},
            Some(CodeToken::Comment) => {
                let text = lex.slice();
                statements.push(Statement::Comment(text));
                assert(statements.deep_view() =~= before.push(
                    StatementView::Comment(inp.slice(lex.pos as int)),
                ));
            },
            t => {
                return Err(ParseError::unexpected_token(lex, t, body_expectation()));
            },
        }
    }
}

/// Reads a module; the current token of `lex` is `@`.
pub fn parse_mmgx_module(lex: &mut Lexer) -> (r: Result<MmgxModule, ParseError>)
    requires
        old(lex).wf(),
    ensures
        final(lex).wf(),
        final(lex).input() == old(lex).input(),
        final(lex).pos >= old(lex).pos,
        match read_module(old(lex).input(), old(lex).pos as int) {
            Ok((module, pos)) => r matches Ok(m) && m.deep_view() == module && final(lex).pos
                == pos,
            Err((failure, pos)) => r matches Err(e) && e.deep_view() == failure && final(lex).pos
                == pos,
        },
{
    let line = lex.current().line;
    let t = lex.next_non_whitespace();
    if t == Some(CodeToken::Identifier) || t == Some(CodeToken::Name) {
        let name = lex.slice();
        let token = lex.next_non_whitespace();
        if token == Some(CodeToken::CurlyOpen) {
            match parse_mmgx_body(lex) {
                Ok(body) => Ok(MmgxModule { name, body, line }),
                Err(e) => Err(e),
            }
        } else {
            let mut expected: Vec<CodeToken> = Vec::new();
            expected.push(CodeToken::CurlyOpen);
            assert(expected@ =~= seq![CodeToken::CurlyOpen]);
            Err(ParseError::unexpected_token(lex, token, expected))
        }
    } else {
        let mut expected: Vec<CodeToken> = Vec::new();
        expected.push(CodeToken::Identifier);
        assert(expected@ =~= seq![CodeToken::Identifier]);
        Err(ParseError::unexpected_token(lex, t, expected))
    }
}

/// Adds `text` to the source text at the end of `file`.
fn push_source(file: &mut Vec<Section>, text: String)
    ensures
        final(file).deep_view() == with_source(old(file).deep_view(), text@),
{
    let ghost before = file.deep_view();
    match file.pop() {
        Some(Section::CSource(mut last)) => {
            let ghost rest = file.deep_view();
            let ghost last_text = last@;
            assert(rest =~= before.drop_last());
            assert(before.last() == SectionView::CSource(last_text)) by {
                assert(before.last() == old(file)@.last().deep_view());
            }
            last.append(text.as_str());
            file.push(Section::CSource(last));
            assert(file.deep_view() =~= rest.push(SectionView::CSource(last_text + text@)));
        },
        Some(other) => {
            let ghost rest = file.deep_view();
            let ghost ov = other.deep_view();
            assert(rest =~= before.drop_last());
            assert(before.last() == ov) by {
                assert(before.last() == old(file)@.last().deep_view());
            }
            file.push(other);
            assert(file.deep_view() =~= before) by {
                assert(file.deep_view() =~= rest.push(ov));
            }
            file.push(Section::CSource(text));
            assert(file.deep_view() =~= before.push(SectionView::CSource(text@)));
        },
        None => {
            assert(before.len() == 0);
            file.push(Section::CSource(text));
            assert(file.deep_view() =~= before.push(SectionView::CSource(text@)));
        },
    }
}

/// Cuts a source text into source chunks and parsed modules.
pub fn parse_source(source: &str) -> (r: Result<Vec<Section>, ParseError>)
    ensures
        match parse_sections(source@) {
            Ok(sections) => r matches Ok(file) && file.deep_view() == sections,
            Err(failure) => r matches Err(e) && e.deep_view() == failure,
        },
{
    let mut lex = Lexer::new(source);
    let ghost inp = lex.input();
    let mut file: Vec<Section> = Vec::new();
    assert(file.deep_view() =~= Seq::<SectionView>::empty());
    loop
        invariant
            lex.wf(),
            lex.input() == inp,
            inp == Input::of(source@),
            read_sections(inp, lex.pos as int, file.deep_view()) == parse_sections(source@),
        decreases lex.tokens.len() - lex.pos,
    {
        let ghost before = file.deep_view();
        match lex.next() {
            None => {
                return Ok(file);
            },
            Some(CodeToken::Modifier) => {
                match parse_mmgx_module(&mut lex) {
                    Ok(module) => {
                        let ghost mv = module.deep_view();
                        file.push(Section::MmgxModule(Rc::new(module)));
                        assert(file.deep_view() =~= before.push(SectionView::MmgxModule(mv)));
                    },
                    Err(e) => {
                        return Err(e);
                    },
                }
            },
            Some(_) => {
                let text = lex.slice();
                push_source(&mut file, text);
            },
        }
    }
}

/// Parses the text `source` of the file at `path`.
pub fn parse_x_file(path: &str, source: &str) -> (r: Result<Vec<Section>, MmgxError>)
    ensures
        match parse_sections(source@) {
            Ok(sections) => r matches Ok(file) && file.deep_view() == sections,
            Err(failure) => r matches Err(e) && e.deep_view() == (MmgxErrorView {
                path: path@,
                error: MmgxErrorKindView::ParseError(failure),
            }),
        },
{
    match parse_source(source) {
        Ok(file) => Ok(file),
        Err(e) => Err(MmgxError::parse_error(path, e)),
    }
}

} // verus!
