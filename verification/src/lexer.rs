//! The token stream that the parser reads, and the failures it reports.

use crate::error::{ParseError, ParseErrorKind, ParseErrorKindView, ParseErrorView};
use crate::text::slice_string;
use crate::token::{tokenize_str, token_stream, well_formed, CodeToken, Token};
use vstd::prelude::*;

verus! {

/// What the parser reads: a text and its tokens.
pub struct Input {
    pub src: Seq<char>,
    pub tokens: Seq<Token>,
}

impl Input {
    /// The tokens of `src`.
    pub open spec fn of(src: Seq<char>) -> Input {
        Input { src, tokens: token_stream(src) }
    }

    /// The token read last when `pos` tokens have been read.  The last token
    /// of all is the end mark, whatever kind it is given.
    pub open spec fn current(self, pos: int) -> Token {
        if pos <= 0 || self.tokens.len() == 0 {
            Token::origin()
        } else if pos < self.tokens.len() {
            self.tokens[pos - 1]
        } else {
            Token { kind: None, ..self.tokens.last() }
        }
    }

    /// The number of tokens read after one more is asked for.  The end mark is
    /// read once and stays the current token from then on.
    pub open spec fn advance(self, pos: int) -> int {
        if 0 <= pos < self.tokens.len() {
            pos + 1
        } else {
            pos
        }
    }

    /// The number of tokens that have not been read.
    pub open spec fn left(self, pos: int) -> nat {
        if pos < self.tokens.len() {
            (self.tokens.len() - pos) as nat
        } else {
            0
        }
    }

    /// The text from `from` to `to`; empty where these are no range of the text.
    pub open spec fn text(self, from: int, to: int) -> Seq<char> {
        if 0 <= from <= to <= self.src.len() {
            self.src.subrange(from, to)
        } else {
            Seq::empty()
        }
    }

    /// The text of the current token.
    pub open spec fn slice(self, pos: int) -> Seq<char> {
        self.text(self.current(pos).start as int, self.current(pos).end as int)
    }

    /// The number of tokens read once the next token that is neither
    /// whitespace nor a comment has been read.
    pub open spec fn skip_blank(self, pos: int) -> int
        decreases self.left(pos),
    {
        let next = self.advance(pos);
        let kind = self.current(next).kind;
        if kind == Some(CodeToken::Whitespace) || kind == Some(CodeToken::Comment) {
            self.skip_blank(next)
        } else {
            next
        }
    }

    /// A failure of kind `kind` on the line `line`, which starts at
    /// `line_start`, for the text from `from` to `to`.
    pub open spec fn failure(
        self,
        line: usize,
        line_start: usize,
        from: usize,
        to: usize,
        kind: ParseErrorKindView,
    ) -> ParseErrorView {
        ParseErrorView {
            line,
            prefix: self.text(line_start as int, from as int),
            token: self.text(from as int, to as int),
            kind,
        }
    }

    /// A failure of kind `kind` at the current token.
    pub open spec fn create(self, pos: int, kind: ParseErrorKindView) -> ParseErrorView {
        let token = self.current(pos);
        self.failure(token.line, token.line_start, token.start, token.end, kind)
    }

    /// The failure of having read `got`, or the end of the text, at the
    /// current token where one of `expected` should stand.  A line break is
    /// reported on the line that it ends.
    pub open spec fn unexpected_token(
        self,
        pos: int,
        got: Option<CodeToken>,
        expected: Seq<CodeToken>,
    ) -> ParseErrorView {
        let token = self.current(pos);
        let kind = match got {
            Some(kind) => ParseErrorKindView::UnexpectedToken { got: kind, expected },
            None => ParseErrorKindView::UnexpectedEOF(expected),
        };
        if got == Some(CodeToken::NewLine) {
            self.failure(
                if token.line > 0 {
                    (token.line - 1) as usize
                } else {
                    0
                },
                token.line_start_last,
                token.start,
                token.end,
                kind,
            )
        } else {
            self.failure(token.line, token.line_start, token.start, token.end, kind)
        }
    }

    /// The failure of a command that was given `got`, for the text from the
    /// place `info` to the end of the current token.
    pub open spec fn wrong_argument(
        self,
        pos: int,
        info: LexerInfo,
        function: Seq<char>,
        got: Seq<char>,
        expected: Seq<Seq<char>>,
    ) -> ParseErrorView {
        self.failure(
            info.line,
            info.line_start,
            info.offset,
            self.current(pos).end,
            ParseErrorKindView::WrongArgument { function, got, expected },
        )
    }

    /// The failure of a command name that is not known, at the current token.
    pub open spec fn unknown_command(self, pos: int) -> ParseErrorView {
        self.create(pos, ParseErrorKindView::UnknownCommand(self.slice(pos)))
    }
}

/// Passing over whitespace never goes back, and where it ends at a token,
/// it has gone forward.
pub proof fn lemma_skip_blank_forward(inp: Input, pos: int)
    ensures
        inp.skip_blank(pos) >= pos,
        inp.current(inp.skip_blank(pos)).kind is Some ==> pos < inp.skip_blank(pos)
            < inp.tokens.len(),
    decreases inp.left(pos),
{
    let next = inp.advance(pos);
    let kind = inp.current(next).kind;
    if kind == Some(CodeToken::Whitespace) || kind == Some(CodeToken::Comment) {
        lemma_skip_blank_forward(inp, next);
    }
}

/// A place in the text: the line bookkeeping and an offset on the line.
#[derive(Debug, Clone, Copy, PartialEq, Eq, Structural)]
pub struct LexerInfo {
    pub line: usize,
    pub line_start: usize,
    pub line_start_last: usize,
    pub offset: usize,
}

impl LexerInfo {
    /// The place of `token`: where it starts, on the line it ends on.
    pub open spec fn of(token: Token) -> LexerInfo {
        LexerInfo {
            line: token.line,
            line_start: token.line_start,
            line_start_last: token.line_start_last,
            offset: token.start,
        }
    }

    /// The place of the current token of `lex`.
    pub fn get(lex: &Lexer) -> (r: LexerInfo)
        requires
            lex.wf(),
        ensures
            r == LexerInfo::of(lex.input().current(lex.pos as int)),
    {
        let token = lex.current();
        LexerInfo {
            line: token.line,
            line_start: token.line_start,
            line_start_last: token.line_start_last,
            offset: token.start,
        }
    }
}

/// A text with its tokens, read one token at a time.
pub struct Lexer {
    pub source: Vec<char>,
    pub tokens: Vec<Token>,
    /// The number of tokens read.
    pub pos: usize,
}

impl Lexer {
    /// The text and the tokens that this lexer reads.
    pub open spec fn input(&self) -> Input {
        Input { src: self.source@, tokens: self.tokens@ }
    }

    /// The tokens lie inside the text and end with the end mark, and no more
    /// tokens have been read than there are.
    pub open spec fn wf(&self) -> bool {
        &&& well_formed(self.tokens@, self.source@.len())
        &&& self.pos <= self.tokens.len()
    }

    /// A lexer at the start of `source`.
    pub fn new(source: &str) -> (lex: Lexer)
        ensures
            lex.wf(),
            lex.pos == 0,
            lex.input() == Input::of(source@),
    {
        let (chars, tokens) = tokenize_str(source);
        Lexer { source: chars, tokens, pos: 0 }
    }

    /// Reads the next token and returns its kind, or `None` at the end.
    pub fn next(&mut self) -> (r: Option<CodeToken>)
        requires
            old(self).wf(),
        ensures
            final(self).wf(),
            final(self).input() == old(self).input(),
            final(self).pos == old(self).input().advance(old(self).pos as int),
            r == final(self).input().current(final(self).pos as int).kind,
            r is Some ==> final(self).pos > old(self).pos,
            final(self).pos >= old(self).pos,
    {
        if self.pos < self.tokens.len() {
            self.pos += 1;
        }
        assert(self.tokens@[self.pos - 1].inside(self.source@.len()));
        self.tokens[self.pos - 1].kind
    }

    /// Reads the next token that is neither whitespace nor a comment.
    pub fn next_non_whitespace(&mut self) -> (r: Option<CodeToken>)
        requires
            old(self).wf(),
        ensures
            final(self).wf(),
            final(self).input() == old(self).input(),
            final(self).pos == old(self).input().skip_blank(old(self).pos as int),
            r == final(self).input().current(final(self).pos as int).kind,
            r is Some ==> final(self).pos > old(self).pos,
            final(self).pos >= old(self).pos,
    {
        loop
            invariant
                self.wf(),
                self.input() == old(self).input(),
                self.pos >= old(self).pos,
                self.input().skip_blank(self.pos as int) == old(self).input().skip_blank(
                    old(self).pos as int,
                ),
            decreases self.tokens.len() - self.pos,
        {
            let ghost before = self.pos;
            match self.next() {
                Some(CodeToken::Whitespace) | Some(CodeToken::Comment) => {},
                t => {
                    return t;
                },
            }
        }
    }

    /// The current token.
    pub fn current(&self) -> (token: Token)
        requires
            self.wf(),
        ensures
            token == self.input().current(self.pos as int),
            token.inside(self.source@.len()),
    {
        if self.pos > 0 {
            assert(self.tokens@[self.pos - 1].inside(self.source@.len()));
            self.tokens[self.pos - 1]
        } else {
            Token { kind: None, start: 0, end: 0, line: 0, line_start: 0, line_start_last: 0 }
        }
    }

    /// The text from `from` to `to`.
    pub fn text(&self, from: usize, to: usize) -> (r: String)
        ensures
            r@ == self.input().text(from as int, to as int),
    {
        if from <= to && to <= self.source.len() {
            slice_string(&self.source, from, to)
        } else {
            String::new()
        }
    }

    /// The text of the current token.
    pub fn slice(&self) -> (r: String)
        requires
            self.wf(),
        ensures
            r@ == self.input().slice(self.pos as int),
    {
        let token = self.current();
        self.text(token.start, token.end)
    }
}

impl ParseError {
    /// A failure of kind `kind` at the current token of `lex`.
    pub fn create(lex: &Lexer, kind: ParseErrorKind) -> (r: ParseError)
        requires
            lex.wf(),
        ensures
            r.deep_view() == lex.input().create(lex.pos as int, kind.deep_view()),
    {
        let token = lex.current();
        ParseError {
            line: token.line,
            prefix: lex.text(token.line_start, token.start),
            token: lex.text(token.start, token.end),
            kind,
        }
    }

    /// The failure of having read `got`, or the end of the text, at the
    /// current token of `lex` where one of `expected` should stand.
    pub fn unexpected_token(lex: &Lexer, got: Option<CodeToken>, expected: Vec<CodeToken>) -> (r:
        ParseError)
        requires
            lex.wf(),
        ensures
            r.deep_view() == lex.input().unexpected_token(lex.pos as int, got, expected@),
    {
        let token = lex.current();
        let mut line = token.line;
        let mut line_start = token.line_start;
        let kind = match got {
            Some(kind) => {
                if kind == CodeToken::NewLine {
                    if line > 0 {
                        line -= 1;
                    }
                    line_start = token.line_start_last;
                }
                ParseErrorKind::UnexpectedToken { got: kind, expected }
            },
            None => ParseErrorKind::UnexpectedEOF(expected),
        };
        ParseError {
            line,
            prefix: lex.text(line_start, token.start),
            token: lex.text(token.start, token.end),
            kind,
        }
    }

    /// The failure of a command that was given `got`, for the text from the
    /// place `pos` to the end of the current token of `lex`.
    pub fn wrong_argument(
        lex: &Lexer,
        pos: LexerInfo,
        function: String,
        got: String,
        expected: Vec<String>,
    ) -> (r: ParseError)
        requires
            lex.wf(),
        ensures
            r.deep_view() == lex.input().wrong_argument(
                lex.pos as int,
                pos,
                function@,
                got@,
                expected.deep_view(),
            ),
    {
        let token = lex.current();
        ParseError {
            line: pos.line,
            prefix: lex.text(pos.line_start, pos.offset),
            token: lex.text(pos.offset, token.end),
            kind: ParseErrorKind::WrongArgument { function, got, expected },
        }
    }

    /// The failure of a command name that is not known, at the current token
    /// of `lex`.
    pub fn unknown_command(lex: &Lexer) -> (r: ParseError)
        requires
            lex.wf(),
        ensures
            r.deep_view() == lex.input().unknown_command(lex.pos as int),
    {
        ParseError::create(lex, ParseErrorKind::UnknownCommand(lex.slice()))
    }
}

} // verus!
