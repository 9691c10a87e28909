//! The tokenizer.
//!
//! A source text is cut into tokens from left to right.  At every position
//! the longest token that starts there is taken; a character that starts no
//! token becomes an `Unknown` token, so that tokenizing never fails.

use crate::text::to_chars;
use vstd::prelude::*;

verus! {

/// The kinds of tokens.
#[derive(Debug, Clone, Copy, PartialEq, Eq, Structural)]
pub enum CodeToken {
    /// A letter followed by letters and digits.
    Name,
    /// A letter or `_` followed by letters, digits and `_`, where it is no
    /// `Name`.
    Identifier,
    /// `"`, any number of pairs of a character other than `"` and `\` and a
    /// `.`, and `"`.
    String,
    /// `//` and the rest of the line.
    Comment,
    /// Decimal digits.
    Number,
    /// `<`
    DiamondOpen,
    /// `>`
    DiamondClose,
    /// `(`
    ParenOpen,
    /// `)`
    ParenClose,
    /// `{`
    CurlyOpen,
    /// `}`
    CurleyClose,
    /// `@`
    Modifier,
    /// `...`
    VaArgs,
    /// `..`
    Range,
    /// `.`
    Dot,
    /// `::`
    ScopeResolution,
    /// A line feed, alone or after a carriage return.
    NewLine,
    /// `,`
    Comma,
    /// Spaces and tabs.
    Whitespace,
    /// Text that starts no other token.
    Unknown,
}

impl DeepView for CodeToken {
    type V = CodeToken;

    open spec fn deep_view(&self) -> CodeToken {
        *self
    }
}

/// The classes of characters that tokens are runs of.
#[derive(Debug, Clone, Copy, PartialEq, Eq, Structural)]
pub enum CharClass {
    /// Letters and digits.
    NameChar,
    /// Letters, digits and `_`.
    IdentifierChar,
    /// Digits.
    Digit,
    /// Space and tab.
    Blank,
    /// Everything but the line feed.
    NotLineFeed,
}

/// `a` to `z` and `A` to `Z`.
pub open spec fn is_letter(c: char) -> bool {
    ('a' <= c && c <= 'z') || ('A' <= c && c <= 'Z')
}

/// `0` to `9`.
pub open spec fn is_digit(c: char) -> bool {
    '0' <= c && c <= '9'
}

/// Whether `c` belongs to `class`.
pub open spec fn in_class(class: CharClass, c: char) -> bool {
    match class {
        CharClass::NameChar => is_letter(c) || is_digit(c),
        CharClass::IdentifierChar => is_letter(c) || is_digit(c) || c == '_',
        CharClass::Digit => is_digit(c),
        CharClass::Blank => c == ' ' || c == '\t',
        CharClass::NotLineFeed => c != '\n',
    }
}

/// Where the longest run of `class` characters that starts at `from` ends.
pub open spec fn run_end(src: Seq<char>, class: CharClass, from: int) -> int
    decreases src.len() - from,
{
    if 0 <= from < src.len() && in_class(class, src[from]) {
        run_end(src, class, from + 1)
    } else {
        from
    }
}

/// Reads a string literal whose opening quote stands before `from`: whether it
/// is closed, and where it ends.  An unclosed literal ends before the first
/// character that is neither the closing quote nor the start of a pair.
pub open spec fn string_end(src: Seq<char>, from: int) -> (bool, int)
    decreases src.len() - from,
{
    if from < 0 || from >= src.len() {
        (false, from)
    } else if src[from] == '"' {
        (true, from + 1)
    } else if src[from] != '\\' && from + 1 < src.len() && src[from + 1] == '.' {
        string_end(src, from + 2)
    } else {
        (false, from)
    }
}

/// The character at `at`, if there is one.
pub open spec fn char_at(src: Seq<char>, at: int) -> Option<char> {
    if 0 <= at < src.len() {
        Some(src[at])
    } else {
        None
    }
}

/// The token that starts at `at`: its kind and where it ends.
pub open spec fn token_at(src: Seq<char>, at: int) -> (CodeToken, int)
    recommends
        0 <= at < src.len(),
{
    let c = src[at];
    let next = char_at(src, at + 1);
    if is_letter(c) {
        let name_end = run_end(src, CharClass::NameChar, at + 1);
        if char_at(src, name_end) == Some('_') {
            (CodeToken::Identifier, run_end(src, CharClass::IdentifierChar, name_end))
        } else {
            (CodeToken::Name, name_end)
        }
    } else if c == '_' {
        (CodeToken::Identifier, run_end(src, CharClass::IdentifierChar, at + 1))
    } else if is_digit(c) {
        (CodeToken::Number, run_end(src, CharClass::Digit, at + 1))
    } else if c == ' ' || c == '\t' {
        (CodeToken::Whitespace, run_end(src, CharClass::Blank, at + 1))
    } else if c == '\n' {
        (CodeToken::NewLine, at + 1)
    } else if c == '\r' && next == Some('\n') {
        (CodeToken::NewLine, at + 2)
    } else if c == '/' && next == Some('/') {
        (CodeToken::Comment, run_end(src, CharClass::NotLineFeed, at + 2))
    } else if c == '"' {
        let (closed, end) = string_end(src, at + 1);
        if closed {
            (CodeToken::String, end)
        } else {
            (CodeToken::Unknown, end)
        }
    } else if c == '.' {
        if next == Some('.') {
            if char_at(src, at + 2) == Some('.') {
                (CodeToken::VaArgs, at + 3)
            } else {
                (CodeToken::Range, at + 2)
            }
        } else {
            (CodeToken::Dot, at + 1)
        }
    } else if c == ':' && next == Some(':') {
        (CodeToken::ScopeResolution, at + 2)
    } else if c == '<' {
        (CodeToken::DiamondOpen, at + 1)
    } else if c == '>' {
        (CodeToken::DiamondClose, at + 1)
    } else if c == '(' {
        (CodeToken::ParenOpen, at + 1)
    } else if c == ')' {
        (CodeToken::ParenClose, at + 1)
    } else if c == '{' {
        (CodeToken::CurlyOpen, at + 1)
    } else if c == '}' {
        (CodeToken::CurleyClose, at + 1)
    } else if c == '@' {
        (CodeToken::Modifier, at + 1)
    } else if c == ',' {
        (CodeToken::Comma, at + 1)
    } else {
        (CodeToken::Unknown, at + 1)
    }
}

/// A run ends at or after its start, inside the text.
pub proof fn lemma_run_end_bounds(src: Seq<char>, class: CharClass, from: int)
    requires
        0 <= from <= src.len(),
    ensures
        from <= run_end(src, class, from) <= src.len(),
    decreases src.len() - from,
{
    if from < src.len() && in_class(class, src[from]) {
        lemma_run_end_bounds(src, class, from + 1);
    }
}

/// A string literal ends at or after the place where reading it starts,
/// inside the text.
pub proof fn lemma_string_end_bounds(src: Seq<char>, from: int)
    requires
        0 <= from <= src.len(),
    ensures
        from <= string_end(src, from).1 <= src.len(),
    decreases src.len() - from,
{
    if from < src.len() && src[from] != '"' && src[from] != '\\' && from + 1 < src.len() && src[from
        + 1] == '.' {
        lemma_string_end_bounds(src, from + 2);
    }
}

/// Every token holds at least one character and ends inside the text.
pub proof fn lemma_token_at_bounds(src: Seq<char>, at: int)
    requires
        0 <= at < src.len(),
    ensures
        at < token_at(src, at).1 <= src.len(),
{
    lemma_run_end_bounds(src, CharClass::NameChar, at + 1);
    lemma_run_end_bounds(src, CharClass::IdentifierChar, at + 1);
    lemma_run_end_bounds(src, CharClass::IdentifierChar, run_end(src, CharClass::NameChar, at + 1));
    lemma_run_end_bounds(src, CharClass::Digit, at + 1);
    lemma_run_end_bounds(src, CharClass::Blank, at + 1);
    if at + 2 <= src.len() {
        lemma_run_end_bounds(src, CharClass::NotLineFeed, at + 2);
    }
    lemma_string_end_bounds(src, at + 1);
}

/// A token with the line bookkeeping as it stands once the token is read.
#[derive(Debug, Clone, Copy, PartialEq, Eq, Structural)]
pub struct Token {
    /// The kind, or `None` for the mark at the end of the text.
    pub kind: Option<CodeToken>,
    /// Where the token starts, counted in characters.
    pub start: usize,
    /// Where the token ends.
    pub end: usize,
    /// The number of line breaks up to and including this token.
    pub line: usize,
    /// Where the current line starts.
    pub line_start: usize,
    /// Where the line before the last line break starts.
    pub line_start_last: usize,
}

impl Token {
    /// What stands for the current token before any token is read.
    pub open spec fn origin() -> Token {
        Token { kind: None, start: 0, end: 0, line: 0, line_start: 0, line_start_last: 0 }
    }

    /// The token of kind `kind` from `self.end` to `end` that follows `self`.
    /// A line break starts a new line at its end.
    pub open spec fn follow(self, kind: Option<CodeToken>, end: int) -> Token {
        if kind == Some(CodeToken::NewLine) {
            Token {
                kind,
                start: self.end,
                end: end as usize,
                line: (self.line + 1) as usize,
                line_start: end as usize,
                line_start_last: self.line_start,
            }
        } else {
            Token { kind, start: self.end, end: end as usize, ..self }
        }
    }

    /// The token lies inside a text of `len` characters, and so do its lines.
    pub open spec fn inside(self, len: nat) -> bool {
        &&& self.start <= self.end <= len
        &&& self.line <= self.end
        &&& self.line_start_last <= self.line_start <= self.end
    }
}

/// The tokens of `src` from the end of `last` on, appended to `acc`, and the
/// end mark after them, for a text whose places fit the machine's numbers.
pub open spec fn tokens_from(src: Seq<char>, last: Token, acc: Seq<Token>) -> Seq<Token>
    decreases src.len() - last.end,
    when src.len() <= usize::MAX
{
    if last.end >= src.len() {
        acc.push(last.follow(None, last.end as int))
    } else {
        proof {
            lemma_token_at_bounds(src, last.end as int);
        }
        let (kind, end) = token_at(src, last.end as int);
        let token = last.follow(Some(kind), end);
        tokens_from(src, token, acc.push(token))
    }
}

/// The tokens of `src`, in order, with the end mark as the last one.
pub open spec fn token_stream(src: Seq<char>) -> Seq<Token> {
    tokens_from(src, Token::origin(), Seq::empty())
}

fn letter(c: char) -> (r: bool)
    ensures
        r == is_letter(c),
{
    (c >= 'a' && c <= 'z') || (c >= 'A' && c <= 'Z')
}

fn digit(c: char) -> (r: bool)
    ensures
        r == is_digit(c),
{
    c >= '0' && c <= '9'
}

fn class_holds(class: CharClass, c: char) -> (r: bool)
    ensures
        r == in_class(class, c),
{
    match class {
        CharClass::NameChar => letter(c) || digit(c),
        CharClass::IdentifierChar => letter(c) || digit(c) || c == '_',
        CharClass::Digit => digit(c),
        CharClass::Blank => c == ' ' || c == '\t',
        CharClass::NotLineFeed => c != '\n',
    }
}

/// Finds the end of the run of `class` characters that starts at `from`.
fn scan_run(src: &Vec<char>, class: CharClass, from: usize) -> (end: usize)
    requires
        from <= src.len(),
    ensures
        end == run_end(src@, class, from as int),
        from <= end <= src.len(),
{
    let mut end: usize = from;
    while end < src.len() && class_holds(class, src[end])
        invariant
            from <= end <= src.len(),
            run_end(src@, class, from as int) == run_end(src@, class, end as int),
        decreases src.len() - end,
    {
        end += 1;
    }
    end
}

/// Reads a string literal whose opening quote stands before `from`.
fn scan_string(src: &Vec<char>, from: usize) -> (r: (bool, usize))
    requires
        from <= src.len(),
    ensures
        (r.0, r.1 as int) == string_end(src@, from as int),
        from <= r.1 <= src.len(),
{
    let mut at: usize = from;
    loop
        invariant
            from <= at <= src.len(),
            string_end(src@, from as int) == string_end(src@, at as int),
        decreases src.len() - at,
    {
        if at >= src.len() {
            return (false, at);
        }
        if src[at] == '"' {
            return (true, at + 1);
        }
        if src[at] != '\\' && at + 1 < src.len() && src[at + 1] == '.' {
            at += 2;
        } else {
            return (false, at);
        }
    }
}

/// The character at `at` is `c`.
fn char_is(src: &Vec<char>, at: usize, c: char) -> (r: bool)
    ensures
        r == (char_at(src@, at as int) == Some(c)),
{
    at < src.len() && src[at] == c
}

/// Reads the token that starts at `at`.
fn scan_token(src: &Vec<char>, at: usize) -> (r: (CodeToken, usize))
    requires
        at < src.len(),
    ensures
        (r.0, r.1 as int) == token_at(src@, at as int),
        at < r.1 <= src.len(),
{
    proof {
        lemma_token_at_bounds(src@, at as int);
    }
    let c = src[at];
    if letter(c) {
        let name_end = scan_run(src, CharClass::NameChar, at + 1);
        if char_is(src, name_end, '_') {
            (CodeToken::Identifier, scan_run(src, CharClass::IdentifierChar, name_end))
        } else {
            (CodeToken::Name, name_end)
        }
    } else if c == '_' {
        (CodeToken::Identifier, scan_run(src, CharClass::IdentifierChar, at + 1))
    } else if digit(c) {
        (CodeToken::Number, scan_run(src, CharClass::Digit, at + 1))
    } else if c == ' ' || c == '\t' {
        (CodeToken::Whitespace, scan_run(src, CharClass::Blank, at + 1))
    } else if c == '\n' {
        (CodeToken::NewLine, at + 1)
    } else if c == '\r' && char_is(src, at + 1, '\n') {
        (CodeToken::NewLine, at + 2)
    } else if c == '/' && char_is(src, at + 1, '/') {
        (CodeToken::Comment, scan_run(src, CharClass::NotLineFeed, at + 2))
    } else if c == '"' {
        let (closed, end) = scan_string(src, at + 1);
        if closed {
            (CodeToken::String, end)
        } else {
            (CodeToken::Unknown, end)
        }
    } else if c == '.' {
        if char_is(src, at + 1, '.') {
            if char_is(src, at + 2, '.') {
                (CodeToken::VaArgs, at + 3)
            } else {
                (CodeToken::Range, at + 2)
            }
        } else {
            (CodeToken::Dot, at + 1)
        }
    } else if c == ':' && char_is(src, at + 1, ':') {
        (CodeToken::ScopeResolution, at + 2)
    } else if c == '<' {
        (CodeToken::DiamondOpen, at + 1)
    } else if c == '>' {
        (CodeToken::DiamondClose, at + 1)
    } else if c == '(' {
        (CodeToken::ParenOpen, at + 1)
    } else if c == ')' {
        (CodeToken::ParenClose, at + 1)
    } else if c == '{' {
        (CodeToken::CurlyOpen, at + 1)
    } else if c == '}' {
        (CodeToken::CurleyClose, at + 1)
    } else if c == '@' {
        (CodeToken::Modifier, at + 1)
    } else if c == ',' {
        (CodeToken::Comma, at + 1)
    } else {
        (CodeToken::Unknown, at + 1)
    }
}

/// The tokens in `tokens` are those of a text of `len` characters: every one
/// lies inside the text, and the end mark is the last one and the only one.
pub open spec fn well_formed(tokens: Seq<Token>, len: nat) -> bool {
    &&& tokens.len() > 0
    &&& forall|i: int| 0 <= i < tokens.len() ==> (#[trigger] tokens[i]).inside(len)
    &&& forall|i: int| 0 <= i < tokens.len() ==> ((#[trigger] tokens[i]).kind is None <==> i + 1
        == tokens.len())
}

/// Cuts `src` into its tokens.
pub fn tokenize(src: &Vec<char>) -> (tokens: Vec<Token>)
    ensures
        tokens@ == token_stream(src@),
        well_formed(tokens@, src@.len()),
{
    let mut tokens: Vec<Token> = Vec::new();
    let mut last = Token { kind: None, start: 0, end: 0, line: 0, line_start: 0, line_start_last: 0 };
    while last.end < src.len()
        invariant
            last.inside(src@.len()),
            tokens_from(src@, last, tokens@) == token_stream(src@),
            forall|i: int| 0 <= i < tokens.len() ==> (#[trigger] tokens[i]).inside(src@.len()),
            forall|i: int| 0 <= i < tokens.len() ==> (#[trigger] tokens[i]).kind is Some,
        decreases src.len() - last.end,
    {
        let (kind, end) = scan_token(src, last.end);
        let token = if kind == CodeToken::NewLine {
            Token {
                kind: Some(kind),
                start: last.end,
                end,
                line: last.line + 1,
                line_start: end,
                line_start_last: last.line_start,
            }
        } else {
            Token {
                kind: Some(kind),
                start: last.end,
                end,
                line: last.line,
                line_start: last.line_start,
                line_start_last: last.line_start_last,
            }
        };
        assert(token == last.follow(Some(kind), end as int));
        tokens.push(token);
        last = token;
    }
    let mark = Token {
        kind: None,
        start: last.end,
        end: last.end,
        line: last.line,
        line_start: last.line_start,
        line_start_last: last.line_start_last,
    };
    assert(mark == last.follow(None, last.end as int));
    tokens.push(mark);
    tokens
}

/// Cuts a source text into its tokens; the characters come with them.
pub fn tokenize_str(source: &str) -> (r: (Vec<char>, Vec<Token>))
    ensures
        r.0@ == source@,
        r.1@ == token_stream(source@),
        well_formed(r.1@, source@.len()),
{
    let src = to_chars(source);
    let tokens = tokenize(&src);
    (src, tokens)
}

} // verus!
