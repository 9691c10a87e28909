//! How errors read: the text that is shown for a failure.

use crate::debug::{
    debug_string, debug_text, debug_texts, debug_texts_string, debug_tokens, debug_tokens_string,
    token_name, token_name_string,
};
use crate::error::{
    CompileError, CompileErrorKind, CompileErrorKindView, CompileErrorView, CompileFailure,
    CompileFailureView, MmgxError, MmgxErrorKind, MmgxErrorKindView, MmgxErrorView, ParseError,
    ParseErrorKind, ParseErrorKindView, ParseErrorView,
};
use crate::text::{decimal, decimal_string, push_char, to_chars};
use vstd::prelude::*;
use vstd::string::*;
use vstd::utf8::encode_utf8;

verus! {

/// `n` times the character `c`.
pub open spec fn repeated(c: char, n: nat) -> Seq<char> {
    Seq::new(n, |i: int| c)
}

/// The sentence for a kind of compile failure.
pub open spec fn kind_message(kind: CompileErrorKindView) -> Seq<char> {
    match kind {
        CompileErrorKindView::NoObjectInModule(ext) => "Object "@ + ext.object
            + " not found in Module "@ + ext.module,
        CompileErrorKindView::ModuleNotIncluded(name) => "Module "@ + name
            + " has not been included! Include modules with @use [Module]"@,
        CompileErrorKindView::NoTemplateParameters => "Object has no Template Parameters!"@,
        CompileErrorKindView::TemplateParameterOutOfRange(got, max) =>
            "Tried indexing template Parameter "@ + decimal(got as nat) + " but only "@ + decimal(
                max as nat,
            ) + " are specified!"@,
        CompileErrorKindView::ModuleNotFound(name) => "Module not found "@ + name,
        CompileErrorKindView::TemplateNotFound(name) => "Template not found "@ + name,
        CompileErrorKindView::RecursiveImplement(ext) => "Object "@ + ext.object + " of Module "@
            + ext.module + " is implemented within itself"@,
    }
}

/// `acc` followed by a line `While Compiling <name>:` for every name of
/// `context[from..]`, the line of the name at `i` after `indent + i` tabs.
pub open spec fn context_lines(context: Seq<Seq<char>>, indent: nat, from: int, acc: Seq<char>) -> Seq<
    char,
>
    decreases context.len() - from,
{
    if from < 0 || from >= context.len() {
        acc
    } else {
        context_lines(
            context,
            indent,
            from + 1,
            acc + repeated('\t', (indent + from) as nat) + "While Compiling "@ + context[from]
                + ":\n"@,
        )
    }
}

/// A failure as text: its context, outermost first and one tab deeper with
/// every line, then the sentence for its kind.
pub open spec fn failure_text(failure: CompileFailureView, indent: nat) -> Seq<char> {
    context_lines(failure.context, indent, 0, Seq::empty()) + repeated(
        '\t',
        indent + failure.context.len(),
    ) + kind_message(failure.kind) + "\n"@
}

/// A compile error as text: `error at <path>:<line> `, then the failure.
pub open spec fn compile_error_text(err: CompileErrorView, path: Seq<char>) -> Seq<char> {
    "error at "@ + path + ":"@ + decimal(err.line as nat) + " "@ + failure_text(err.error, 0)
}

/// The sentence for a kind of parse failure, where `token` is the offending
/// text.
pub open spec fn parse_message(kind: ParseErrorKindView, token: Seq<char>) -> Seq<char> {
    match kind {
        ParseErrorKindView::UnexpectedToken { got, expected } => "Unexpected Token got "@
            + token_name(got) + "("@ + debug_text(token) + ")"@ + " expected "@ + debug_tokens(
            expected,
        ) + "\n"@,
        ParseErrorKindView::UnexpectedEOF(expected) => "Reached End of File expected Token "@
            + debug_tokens(expected) + "\n"@,
        ParseErrorKindView::WrongArgument { function, got, expected } => "Wrong Argument for "@
            + function + " got "@ + got + " expected "@ + debug_texts(expected) + "\n"@,
        ParseErrorKindView::UnknownCommand(name) => "Unknown Command '"@ + name + "'\n"@,
    }
}

/// What stands before the underline of the offending text: for every
/// character of `prefix[from..]` a space, or five for a tab; a line break or a
/// carriage return drops what was gathered before it.
pub open spec fn caret_pad(prefix: Seq<char>, from: int, acc: Seq<char>) -> Seq<char>
    decreases prefix.len() - from,
{
    if from < 0 || from >= prefix.len() {
        acc
    } else if prefix[from] == '\t' {
        caret_pad(prefix, from + 1, acc + "     "@)
    } else if prefix[from] == '\n' || prefix[from] == '\r' {
        caret_pad(prefix, from + 1, Seq::empty())
    } else {
        caret_pad(prefix, from + 1, acc + " "@)
    }
}

/// The number of bytes that `text` takes in UTF-8.
pub open spec fn byte_len(text: Seq<char>) -> usize {
    encode_utf8(text).len() as usize
}

/// A parse error as text: `error at <path>:<line>:<column> `, the sentence
/// for its kind, the line up to the end of the offending text, and under it
/// one `~` for every byte of the offending text.  The column is the number of
/// bytes before the offending text on its line.
pub open spec fn parse_error_text(err: ParseErrorView, path: Seq<char>) -> Seq<char> {
    "error at "@ + path + ":"@ + decimal(err.line as nat) + ":"@ + decimal(
        byte_len(err.prefix) as nat,
    ) + " "@ + parse_message(err.kind, err.token) + err.prefix + err.token + caret_pad(
        err.prefix,
        0,
        "\n"@,
    ) + repeated('~', byte_len(err.token) as nat) + "\n"@
}

/// An error as text.
pub open spec fn error_text(err: MmgxErrorView) -> Seq<char> {
    match err.error {
        MmgxErrorKindView::ParseError(e) => "Parsing failed!\n"@ + parse_error_text(e, err.path),
        MmgxErrorKindView::FileReadError(reason) => "Could not read file '"@ + err.path + "': "@
            + reason,
        MmgxErrorKindView::FileOpenError(reason) => "Could not open file '"@ + err.path + "': "@
            + reason,
        MmgxErrorKindView::FileWriteError(reason) => "Could not write file '"@ + err.path
            + "': "@ + reason,
        MmgxErrorKindView::CompileError(e) => "Compiling failed!\n"@ + compile_error_text(
            e,
            err.path,
        ),
    }
}

/// Appends `n` times the character `c`.
fn append_repeated(res: &mut String, c: char, n: usize)
    ensures
        final(res)@ == old(res)@ + repeated(c, n as nat),
{
    let mut i: usize = 0;
    assert(res@ =~= old(res)@ + repeated(c, 0));
    while i < n
        invariant
            i <= n,
            res@ == old(res)@ + repeated(c, i as nat),
        decreases n - i,
    {
        push_char(res, c);
        i += 1;
        assert(res@ =~= old(res)@ + repeated(c, i as nat));
    }
}

fn kind_message_string(kind: &CompileErrorKind) -> (r: String)
    ensures
        r@ == kind_message(kind.deep_view()),
{
    let mut r = String::new();
    match kind {
        CompileErrorKind::NoObjectInModule(ext) => {
            r.append("Object ");
            r.append(ext.object.as_str());
            r.append(" not found in Module ");
            r.append(ext.module.as_str());
        },
        CompileErrorKind::ModuleNotIncluded(name) => {
            r.append("Module ");
            r.append(name.as_str());
            r.append(" has not been included! Include modules with @use [Module]");
        },
        CompileErrorKind::NoTemplateParameters => {
            r.append("Object has no Template Parameters!");
        },
        CompileErrorKind::TemplateParameterOutOfRange(got, max) => {
            r.append("Tried indexing template Parameter ");
            r.append(decimal_string(*got).as_str());
            r.append(" but only ");
            r.append(decimal_string(*max).as_str());
            r.append(" are specified!");
        },
        CompileErrorKind::ModuleNotFound(name) => {
            r.append("Module not found ");
            r.append(name.as_str());
        },
        CompileErrorKind::TemplateNotFound(name) => {
            r.append("Template not found ");
            r.append(name.as_str());
        },
        CompileErrorKind::RecursiveImplement(ext) => {
            r.append("Object ");
            r.append(ext.object.as_str());
            r.append(" of Module ");
            r.append(ext.module.as_str());
            r.append(" is implemented within itself");
        },
    }
    assert(r@ =~= kind_message(kind.deep_view()));
    r
}

impl CompileError {
    /// Writes a failure, its first line after `indent` tabs.
    pub fn fmt_err(error: &CompileFailure, indent: usize) -> (r: String)
        requires
            indent + error.context.len() <= usize::MAX,
        ensures
            r@ == failure_text(error.deep_view(), indent as nat),
    {
        let ghost context = error.deep_view().context;
        let mut r = String::new();
        let mut i: usize = 0;
        while i < error.context.len()
            invariant
                i <= error.context.len(),
                indent + error.context.len() <= usize::MAX,
                context == error.deep_view().context,
                context_lines(context, indent as nat, i as int, r@) == context_lines(
                    context,
                    indent as nat,
                    0,
                    Seq::empty(),
                ),
            decreases error.context.len() - i,
        {
            assert(context[i as int] == error.context@[i as int]@);
            append_repeated(&mut r, '\t', indent + i);
            r.append("While Compiling ");
            r.append(error.context[i].as_str());
            r.append(":\n");
            i += 1;
        }
        append_repeated(&mut r, '\t', indent + error.context.len());
        r.append(kind_message_string(&error.kind).as_str());
        r.append("\n");
        r
    }

    /// Writes this error for the file at `path`.
    pub fn fmt(&self, path: &str) -> (r: String)
        ensures
            r@ == compile_error_text(self.deep_view(), path@),
    {
        let mut r = String::from_str("error at ");
        r.append(path);
        r.append(":");
        r.append(decimal_string(self.line).as_str());
        r.append(" ");
        r.append(CompileError::fmt_err(&self.error, 0).as_str());
        r
    }
}

fn parse_message_string(kind: &ParseErrorKind, token: &String) -> (r: String)
    ensures
        r@ == parse_message(kind.deep_view(), token@),
{
    let mut r = String::new();
    match kind {
        ParseErrorKind::UnexpectedToken { got, expected } => {
            r.append("Unexpected Token got ");
            r.append(token_name_string(*got).as_str());
            r.append("(");
            r.append(debug_string(token.as_str()).as_str());
            r.append(")");
            r.append(" expected ");
            r.append(debug_tokens_string(expected).as_str());
            r.append("\n");
        },
        ParseErrorKind::UnexpectedEOF(expected) => {
            r.append("Reached End of File expected Token ");
            r.append(debug_tokens_string(expected).as_str());
            r.append("\n");
        },
        ParseErrorKind::WrongArgument { function, got, expected } => {
            r.append("Wrong Argument for ");
            r.append(function.as_str());
            r.append(" got ");
            r.append(got.as_str());
            r.append(" expected ");
            r.append(debug_texts_string(expected).as_str());
            r.append("\n");
        },
        ParseErrorKind::UnknownCommand(name) => {
            r.append("Unknown Command '");
            r.append(name.as_str());
            r.append("'\n");
        },
    }
    assert(r@ =~= parse_message(kind.deep_view(), token@));
    r
}

/// What stands before the underline of the offending text.
fn caret_pad_string(prefix: &String) -> (r: String)
    ensures
        r@ == caret_pad(prefix@, 0, "\n"@),
{
    let chars = to_chars(prefix.as_str());
    let mut tmp = String::from_str("\n");
    let mut i: usize = 0;
    while i < chars.len()
        invariant
            i <= chars.len(),
            chars@ == prefix@,
            caret_pad(chars@, i as int, tmp@) == caret_pad(chars@, 0, "\n"@),
        decreases chars.len() - i,
    {
        let c = chars[i];
        if c == '\t' {
            tmp.append("     ");
        } else if c == '\n' || c == '\r' {
            tmp = String::new();
        } else {
            tmp.append(" ");
        }
        i += 1;
    }
    tmp
}

impl ParseError {
    /// Writes this error for the file at `path`.
    pub fn fmt(&self, path: &str) -> (r: String)
        ensures
            r@ == parse_error_text(self.deep_view(), path@),
    {
        let mut r = String::from_str("error at ");
        r.append(path);
        r.append(":");
        r.append(decimal_string(self.line).as_str());
        r.append(":");
        r.append(decimal_string(self.prefix.as_str().len()).as_str());
        r.append(" ");
        r.append(parse_message_string(&self.kind, &self.token).as_str());
        r.append(self.prefix.as_str());
        r.append(self.token.as_str());
        r.append(caret_pad_string(&self.prefix).as_str());
        append_repeated(&mut r, '~', self.token.as_str().len());
        r.append("\n");
        r
    }
}

impl MmgxError {
    /// Writes this error as it is shown to the user.
    pub fn to_string(&self) -> (r: String)
        ensures
            r@ == error_text(self.deep_view()),
    {
        let mut r = String::new();
        match &self.error {
            MmgxErrorKind::ParseError(e) => {
                r.append("Parsing failed!\n");
                r.append(e.fmt(self.path.as_str()).as_str());
            },
            MmgxErrorKind::FileReadError(reason) => {
                r.append("Could not read file '");
                r.append(self.path.as_str());
                r.append("': ");
                r.append(reason.as_str());
            },
            MmgxErrorKind::FileOpenError(reason) => {
                r.append("Could not open file '");
                r.append(self.path.as_str());
                r.append("': ");
                r.append(reason.as_str());
            },
            MmgxErrorKind::FileWriteError(reason) => {
                r.append("Could not write file '");
                r.append(self.path.as_str());
                r.append("': ");
                r.append(reason.as_str());
            },
            MmgxErrorKind::CompileError(e) => {
                r.append("Compiling failed!\n");
                r.append(e.fmt(self.path.as_str()).as_str());
            },
        }
        assert(r@ =~= error_text(self.deep_view()));
        r
    }
}

} // verus!
