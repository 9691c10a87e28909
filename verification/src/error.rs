//! The errors of parsing and compiling, and how they read.

use crate::ast::{External, ExternalView};
use crate::token::CodeToken;
use vstd::prelude::*;
use vstd::string::*;

verus! {

/// Why rendering a module failed.
#[derive(Debug, Clone, PartialEq, Eq)]
pub enum CompileErrorKind {
    /// A reference names an object that the imported module does not declare.
    NoObjectInModule(External),
    /// A reference names a module that the current module has not imported.
    ModuleNotIncluded(String),
    /// A parameter is used where no template parameters are bound.
    NoTemplateParameters,
    /// An index (first) reaches past the number of available values (second).
    TemplateParameterOutOfRange(usize, usize),
    /// `@use` names a module that no source file defines.
    ModuleNotFound(String),
    /// `@impl` names a template that has not been declared before it.
    TemplateNotFound(String),
    /// Inlining the target of this reference leads back to the same target.
    RecursiveImplement(External),
}

/// A failure together with the names of what was being compiled, outermost
/// first.
#[derive(Debug, Clone, PartialEq, Eq)]
pub struct CompileFailure {
    pub context: Vec<String>,
    pub kind: CompileErrorKind,
}

/// A failure attributed to a module's line.
#[derive(Debug, Clone, PartialEq, Eq)]
pub struct CompileError {
    pub line: usize,
    pub error: CompileFailure,
}

pub enum CompileErrorKindView {
    NoObjectInModule(ExternalView),
    ModuleNotIncluded(Seq<char>),
    NoTemplateParameters,
    TemplateParameterOutOfRange(usize, usize),
    ModuleNotFound(Seq<char>),
    TemplateNotFound(Seq<char>),
    RecursiveImplement(ExternalView),
}

pub struct CompileFailureView {
    pub context: Seq<Seq<char>>,
    pub kind: CompileErrorKindView,
}

pub struct CompileErrorView {
    pub line: usize,
    pub error: CompileFailureView,
}

impl DeepView for CompileErrorKind {
    type V = CompileErrorKindView;

    open spec fn deep_view(&self) -> CompileErrorKindView {
        match self {
            CompileErrorKind::NoObjectInModule(ext) => CompileErrorKindView::NoObjectInModule(
                ext.deep_view(),
            ),
            CompileErrorKind::ModuleNotIncluded(name) => CompileErrorKindView::ModuleNotIncluded(
                name@,
            ),
            CompileErrorKind::NoTemplateParameters => CompileErrorKindView::NoTemplateParameters,
            CompileErrorKind::TemplateParameterOutOfRange(index, count) =>
                CompileErrorKindView::TemplateParameterOutOfRange(*index, *count),
            CompileErrorKind::ModuleNotFound(name) => CompileErrorKindView::ModuleNotFound(name@),
            CompileErrorKind::TemplateNotFound(name) => CompileErrorKindView::TemplateNotFound(
                name@,
            ),
            CompileErrorKind::RecursiveImplement(ext) => CompileErrorKindView::RecursiveImplement(
                ext.deep_view(),
            ),
        }
    }
}

impl DeepView for CompileFailure {
    type V = CompileFailureView;

    open spec fn deep_view(&self) -> CompileFailureView {
        CompileFailureView { context: self.context.deep_view(), kind: self.kind.deep_view() }
    }
}

impl DeepView for CompileError {
    type V = CompileErrorView;

    open spec fn deep_view(&self) -> CompileErrorView {
        CompileErrorView { line: self.line, error: self.error.deep_view() }
    }
}

/// Why parsing failed.
#[allow(inconsistent_fields)]
#[derive(Debug, Clone, PartialEq, Eq)]
pub enum ParseErrorKind {
    /// A token other than the expected ones was read.
    UnexpectedToken { got: CodeToken, expected: Vec<CodeToken> },
    /// The text ended where one of these tokens was expected.
    UnexpectedEOF(Vec<CodeToken>),
    /// A command was given something else than it takes.
    WrongArgument { function: String, got: String, expected: Vec<String> },
    /// `@` is followed by a name that is no command.
    UnknownCommand(String),
}

/// A parse failure and where it was found.
#[derive(Debug, Clone, PartialEq, Eq)]
pub struct ParseError {
    /// The number of line breaks before the line of the failure.
    pub line: usize,
    /// The text from the start of that line to the offending text.
    pub prefix: String,
    /// The offending text.
    pub token: String,
    pub kind: ParseErrorKind,
}

#[allow(inconsistent_fields)]
pub enum ParseErrorKindView {
    UnexpectedToken { got: CodeToken, expected: Seq<CodeToken> },
    UnexpectedEOF(Seq<CodeToken>),
    WrongArgument { function: Seq<char>, got: Seq<char>, expected: Seq<Seq<char>> },
    UnknownCommand(Seq<char>),
}

pub struct ParseErrorView {
    pub line: usize,
    pub prefix: Seq<char>,
    pub token: Seq<char>,
    pub kind: ParseErrorKindView,
}

impl DeepView for ParseErrorKind {
    type V = ParseErrorKindView;

    open spec fn deep_view(&self) -> ParseErrorKindView {
        match self {
            ParseErrorKind::UnexpectedToken { got, expected } =>
                ParseErrorKindView::UnexpectedToken { got: *got, expected: expected@ },
            ParseErrorKind::UnexpectedEOF(expected) => ParseErrorKindView::UnexpectedEOF(
                expected@,
            ),
            ParseErrorKind::WrongArgument { function, got, expected } =>
                ParseErrorKindView::WrongArgument {
                    function: function@,
                    got: got@,
                    expected: expected.deep_view(),
                },
            ParseErrorKind::UnknownCommand(name) => ParseErrorKindView::UnknownCommand(name@),
        }
    }
}

impl DeepView for ParseError {
    type V = ParseErrorView;

    open spec fn deep_view(&self) -> ParseErrorView {
        ParseErrorView {
            line: self.line,
            prefix: self.prefix@,
            token: self.token@,
            kind: self.kind.deep_view(),
        }
    }
}

/// What went wrong with a file.
#[derive(Debug, Clone, PartialEq, Eq)]
pub enum MmgxErrorKind {
    ParseError(ParseError),
    /// The file could not be read, for the reason given.
    FileReadError(String),
    /// The output file could not be opened, for the reason given.
    FileOpenError(String),
    /// The output file could not be written, for the reason given.
    FileWriteError(String),
    CompileError(CompileError),
}

/// An error and the path of the file that it belongs to.
#[derive(Debug, Clone, PartialEq, Eq)]
pub struct MmgxError {
    pub path: String,
    pub error: MmgxErrorKind,
}

pub enum MmgxErrorKindView {
    ParseError(ParseErrorView),
    FileReadError(Seq<char>),
    FileOpenError(Seq<char>),
    FileWriteError(Seq<char>),
    CompileError(CompileErrorView),
}

pub struct MmgxErrorView {
    pub path: Seq<char>,
    pub error: MmgxErrorKindView,
}

impl DeepView for MmgxErrorKind {
    type V = MmgxErrorKindView;

    open spec fn deep_view(&self) -> MmgxErrorKindView {
        match self {
            MmgxErrorKind::ParseError(e) => MmgxErrorKindView::ParseError(e.deep_view()),
            MmgxErrorKind::FileReadError(reason) => MmgxErrorKindView::FileReadError(reason@),
            MmgxErrorKind::FileOpenError(reason) => MmgxErrorKindView::FileOpenError(reason@),
            MmgxErrorKind::FileWriteError(reason) => MmgxErrorKindView::FileWriteError(reason@),
            MmgxErrorKind::CompileError(e) => MmgxErrorKindView::CompileError(e.deep_view()),
        }
    }
}

impl DeepView for MmgxError {
    type V = MmgxErrorView;

    open spec fn deep_view(&self) -> MmgxErrorView {
        MmgxErrorView { path: self.path@, error: self.error.deep_view() }
    }
}

impl MmgxError {
    /// The file at `path` could not be read.
    pub fn file_read_error(path: &str, reason: String) -> (r: MmgxError)
        ensures
            r.deep_view() == (MmgxErrorView {
                path: path@,
                error: MmgxErrorKindView::FileReadError(reason@),
            }),
    {
        MmgxError { path: String::from_str(path), error: MmgxErrorKind::FileReadError(reason) }
    }

    /// The output file for `path` could not be opened.
    pub fn file_open_error(path: &str, reason: String) -> (r: MmgxError)
        ensures
            r.deep_view() == (MmgxErrorView {
                path: path@,
                error: MmgxErrorKindView::FileOpenError(reason@),
            }),
    {
        MmgxError { path: String::from_str(path), error: MmgxErrorKind::FileOpenError(reason) }
    }

    /// The output file for `path` could not be written.
    pub fn file_write_error(path: &str, reason: String) -> (r: MmgxError)
        ensures
            r.deep_view() == (MmgxErrorView {
                path: path@,
                error: MmgxErrorKindView::FileWriteError(reason@),
            }),
    {
        MmgxError { path: String::from_str(path), error: MmgxErrorKind::FileWriteError(reason) }
    }

    /// The file at `path` could not be parsed.
    pub fn parse_error(path: &str, error: ParseError) -> (r: MmgxError)
        ensures
            r.deep_view() == (MmgxErrorView {
                path: path@,
                error: MmgxErrorKindView::ParseError(error.deep_view()),
            }),
    {
        MmgxError { path: String::from_str(path), error: MmgxErrorKind::ParseError(error) }
    }

    /// A module of the file at `path` could not be compiled.
    pub fn compilation_error(path: &str, error: CompileError) -> (r: MmgxError)
        ensures
            r.deep_view() == (MmgxErrorView {
                path: path@,
                error: MmgxErrorKindView::CompileError(error.deep_view()),
            }),
    {
        MmgxError { path: String::from_str(path), error: MmgxErrorKind::CompileError(error) }
    }
}

impl CompileFailureView {
    /// A failure with no context yet.
    pub open spec fn of(kind: CompileErrorKindView) -> CompileFailureView {
        CompileFailureView { context: Seq::empty(), kind }
    }

    /// The same failure, seen from inside the compilation of `name`.
    pub open spec fn within(self, name: Seq<char>) -> CompileFailureView {
        CompileFailureView { context: seq![name] + self.context, kind: self.kind }
    }
}

impl CompileFailure {
    /// A failure with no context yet.
    pub fn of(kind: CompileErrorKind) -> (r: CompileFailure)
        ensures
            r.deep_view() == CompileFailureView::of(kind.deep_view()),
    {
        let r = CompileFailure { context: Vec::new(), kind };
        proof {
            assert(r.context.deep_view() =~= Seq::<Seq<char>>::empty());
        }
        r
    }

    /// Adds `name` as the outermost context of the failure.
    pub fn within(self, name: &String) -> (r: CompileFailure)
        ensures
            r.deep_view() == self.deep_view().within(name@),
    {
        let mut context: Vec<String> = Vec::new();
        context.push(name.clone());
        let mut inner = self.context;
        let ghost old_inner = inner;
        context.append(&mut inner);
        let r = CompileFailure { context, kind: self.kind };
        proof {
            assert(r.context.deep_view() =~= seq![name@] + old_inner.deep_view());
        }
        r
    }
}

} // verus!
