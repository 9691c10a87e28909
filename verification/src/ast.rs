//! The syntax tree of annotated sources, and its mathematical model.
//!
//! Every tree type has a model type (`...View`) in which text is a
//! `Seq<char>` and lists are `Seq`s; `deep_view()` maps a tree to its model.
//! Contracts throughout the crate are stated over the models.

use std::rc::Rc;
use vstd::prelude::*;

verus! {

/// A reference into another module: `Module.Object` or `Module::Object`.
#[derive(Debug, Clone, PartialEq, Eq)]
pub struct External {
    pub module: String,
    pub object: String,
    /// `true` for the dot form, which inlines the target under a fresh name.
    pub implement: bool,
}

/// An invocation of a template of the same module: `Name<arg, ..>`.
#[derive(Debug, Clone, PartialEq, Eq)]
pub struct TemplateCall {
    pub name: String,
    pub args: Vec<String>,
}

/// One classified fragment of a macro body.
#[derive(Debug, Clone, PartialEq, Eq)]
pub enum BodyStatement {
    /// Text that is emitted as it stands.
    Expand(String),
    /// The value in the slot of this index: the value bound to a template
    /// parameter.
    Parameter(usize),
    /// A name that is replaced by a generated symbol if the enclosing module
    /// declares it, and emitted unchanged otherwise.
    OptDependency(String),
    External(External),
    TemplateCall(TemplateCall),
}

/// A macro: a name and the fragments of its right-hand side.
#[derive(Debug, Clone, PartialEq, Eq)]
pub struct Object {
    pub name: String,
    pub body: Vec<BodyStatement>,
}

/// One entry of a template's parameter list.
#[derive(Debug, Clone, PartialEq, Eq)]
pub enum TemplateParameter {
    /// A fresh formal parameter; it owns the next value slot.
    Param(String),
    /// A repetition of the parameter at the given position of the list.
    Reference(usize),
}

/// A macro with formal parameters, instantiated by `@impl`.
#[derive(Debug, Clone, PartialEq, Eq)]
pub struct Template {
    pub params: Vec<TemplateParameter>,
    pub obj: Object,
}

/// An inclusive range of parameter values, `first..last`.
#[derive(Debug, Clone, Copy, PartialEq, Eq)]
pub struct ImplRange {
    pub first: usize,
    pub last: usize,
}

/// `@impl Template<first..last, ..>`.
#[derive(Debug, Clone, PartialEq, Eq)]
pub struct CommandImpl {
    pub template: String,
    pub params: Vec<ImplRange>,
}

/// A command of a module body.
#[derive(Debug, Clone, PartialEq, Eq)]
pub enum Command {
    Impl(CommandImpl),
    Use(String),
    Export(Object),
}

/// A statement of a module body.
#[derive(Debug, Clone, PartialEq, Eq)]
pub enum Statement {
    Object(Object),
    Template(Template),
    Command(Command),
    Comment(String),
}

/// A parsed `@Name { .. }` block.
#[derive(Debug, Clone, PartialEq, Eq)]
pub struct MmgxModule {
    pub name: String,
    pub body: Vec<Statement>,
    /// The line on which the block starts, counted from 0.
    pub line: usize,
}

/// A piece of a source file.
#[derive(Debug, Clone, PartialEq, Eq)]
pub enum Section {
    /// Text outside any block, emitted as it stands.
    CSource(String),
    MmgxModule(Rc<MmgxModule>),
}

// The models: every tree type again, with `Seq<char>` for text and `Seq` for
// lists.

pub struct ExternalView {
    pub module: Seq<char>,
    pub object: Seq<char>,
    pub implement: bool,
}

pub struct TemplateCallView {
    pub name: Seq<char>,
    pub args: Seq<Seq<char>>,
}

pub enum BodyStatementView {
    Expand(Seq<char>),
    Parameter(usize),
    OptDependency(Seq<char>),
    External(ExternalView),
    TemplateCall(TemplateCallView),
}

pub struct ObjectView {
    pub name: Seq<char>,
    pub body: Seq<BodyStatementView>,
}

pub enum TemplateParameterView {
    Param(Seq<char>),
    Reference(usize),
}

pub struct TemplateView {
    pub params: Seq<TemplateParameterView>,
    pub obj: ObjectView,
}

pub struct CommandImplView {
    pub template: Seq<char>,
    pub params: Seq<ImplRange>,
}

pub enum CommandView {
    Impl(CommandImplView),
    Use(Seq<char>),
    Export(ObjectView),
}

pub enum StatementView {
    Object(ObjectView),
    Template(TemplateView),
    Command(CommandView),
    Comment(Seq<char>),
}

pub struct ModuleView {
    pub name: Seq<char>,
    pub body: Seq<StatementView>,
    pub line: usize,
}

pub enum SectionView {
    CSource(Seq<char>),
    MmgxModule(ModuleView),
}

impl DeepView for External {
    type V = ExternalView;

    open spec fn deep_view(&self) -> ExternalView {
        ExternalView { module: self.module@, object: self.object@, implement: self.implement }
    }
}

impl DeepView for TemplateCall {
    type V = TemplateCallView;

    open spec fn deep_view(&self) -> TemplateCallView {
        TemplateCallView { name: self.name@, args: self.args.deep_view() }
    }
}

impl DeepView for BodyStatement {
    type V = BodyStatementView;

    open spec fn deep_view(&self) -> BodyStatementView {
        match self {
            BodyStatement::Expand(text) => BodyStatementView::Expand(text@),
            BodyStatement::Parameter(index) => BodyStatementView::Parameter(*index),
            BodyStatement::OptDependency(name) => BodyStatementView::OptDependency(name@),
            BodyStatement::External(ext) => BodyStatementView::External(ext.deep_view()),
            BodyStatement::TemplateCall(call) => BodyStatementView::TemplateCall(call.deep_view()),
        }
    }
}

impl DeepView for Object {
    type V = ObjectView;

    open spec fn deep_view(&self) -> ObjectView {
        ObjectView { name: self.name@, body: self.body.deep_view() }
    }
}

impl DeepView for TemplateParameter {
    type V = TemplateParameterView;

    open spec fn deep_view(&self) -> TemplateParameterView {
        match self {
            TemplateParameter::Param(name) => TemplateParameterView::Param(name@),
            TemplateParameter::Reference(index) => TemplateParameterView::Reference(*index),
        }
    }
}

impl DeepView for Template {
    type V = TemplateView;

    open spec fn deep_view(&self) -> TemplateView {
        TemplateView { params: self.params.deep_view(), obj: self.obj.deep_view() }
    }
}

impl DeepView for ImplRange {
    type V = ImplRange;

    open spec fn deep_view(&self) -> ImplRange {
        *self
    }
}

impl DeepView for CommandImpl {
    type V = CommandImplView;

    open spec fn deep_view(&self) -> CommandImplView {
        CommandImplView { template: self.template@, params: self.params@ }
    }
}

impl DeepView for Command {
    type V = CommandView;

    open spec fn deep_view(&self) -> CommandView {
        match self {
            Command::Impl(cmd) => CommandView::Impl(cmd.deep_view()),
            Command::Use(name) => CommandView::Use(name@),
            Command::Export(obj) => CommandView::Export(obj.deep_view()),
        }
    }
}

impl DeepView for Statement {
    type V = StatementView;

    open spec fn deep_view(&self) -> StatementView {
        match self {
            Statement::Object(obj) => StatementView::Object(obj.deep_view()),
            Statement::Template(template) => StatementView::Template(template.deep_view()),
            Statement::Command(cmd) => StatementView::Command(cmd.deep_view()),
            Statement::Comment(text) => StatementView::Comment(text@),
        }
    }
}

impl DeepView for MmgxModule {
    type V = ModuleView;

    open spec fn deep_view(&self) -> ModuleView {
        ModuleView { name: self.name@, body: self.body.deep_view(), line: self.line }
    }
}

impl DeepView for Section {
    type V = SectionView;

    open spec fn deep_view(&self) -> SectionView {
        match self {
            Section::CSource(text) => SectionView::CSource(text@),
            Section::MmgxModule(module) => SectionView::MmgxModule(module.deep_view()),
        }
    }
}

} // verus!
