//! The expander: turns parsed modules into `#define` lines.
//!
//! What is rendered is defined by spec functions over the models of
//! `crate::ast`; every executable function states that its result is the
//! value of the spec function on the models of its arguments.  `object`
//! renders one macro, `module` compiles the statements of one module, and
//! this file puts the modules of all files together.

pub mod module;
pub mod object;

use crate::ast::{MmgxModule, ModuleView, Section, SectionView};
use crate::compile::module::compile_module;
use crate::error::{
    CompileError, CompileErrorView, MmgxError, MmgxErrorKindView, MmgxErrorView,
};
use std::rc::Rc;
use vstd::prelude::*;
use vstd::string::*;

verus! {

/// The modules among `sections[from..]`, in order, appended to `acc`.
pub open spec fn modules_of(sections: Seq<SectionView>, from: int, acc: Seq<ModuleView>) -> Seq<
    ModuleView,
>
    decreases sections.len() - from,
{
    if from < 0 || from >= sections.len() {
        acc
    } else {
        match sections[from] {
            SectionView::MmgxModule(module) => modules_of(sections, from + 1, acc.push(module)),
            SectionView::CSource(_) => modules_of(sections, from + 1, acc),
        }
    }
}

/// The modules of the files `files[from..]`, file after file, appended to
/// `acc`.
pub open spec fn registry_from(
    files: Seq<(Seq<char>, Seq<SectionView>)>,
    from: int,
    acc: Seq<ModuleView>,
) -> Seq<ModuleView>
    decreases files.len() - from,
{
    if from < 0 || from >= files.len() {
        acc
    } else {
        registry_from(files, from + 1, modules_of(files[from].1, 0, acc))
    }
}

/// The modules of all files, in the order of the files and of their sections.
pub open spec fn registry(files: Seq<(Seq<char>, Seq<SectionView>)>) -> Seq<ModuleView> {
    registry_from(files, 0, Seq::empty())
}

/// What is written for a section: source text as it stands, and for a module
/// its expansion.  A failure carries the module's line.
pub open spec fn section_text(section: SectionView, modules: Seq<ModuleView>) -> Result<
    Seq<char>,
    CompileErrorView,
> {
    match section {
        SectionView::CSource(text) => Ok(text),
        SectionView::MmgxModule(module) => match compile_module(module, modules) {
            Ok(text) => Ok(text),
            Err(failure) => Err(CompileErrorView { line: module.line, error: failure }),
        },
    }
}

/// The text `acc` followed by what is written for `sections[from..]`.
pub open spec fn sections_text(
    sections: Seq<SectionView>,
    modules: Seq<ModuleView>,
    from: int,
    acc: Seq<char>,
) -> Result<Seq<char>, CompileErrorView>
    decreases sections.len() - from,
{
    if from < 0 || from >= sections.len() {
        Ok(acc)
    } else {
        match section_text(sections[from], modules) {
            Err(err) => Err(err),
            Ok(text) => sections_text(sections, modules, from + 1, acc + text),
        }
    }
}

/// The outputs `acc` followed by the outputs of the files `files[from..]`.
/// The first failure ends the run and carries the path of its file.
pub open spec fn outputs_from(
    files: Seq<(Seq<char>, Seq<SectionView>)>,
    modules: Seq<ModuleView>,
    from: int,
    acc: Seq<Seq<char>>,
) -> Result<Seq<Seq<char>>, MmgxErrorView>
    decreases files.len() - from,
{
    if from < 0 || from >= files.len() {
        Ok(acc)
    } else {
        match sections_text(files[from].1, modules, 0, Seq::empty()) {
            Err(err) => Err(
                MmgxErrorView { path: files[from].0, error: MmgxErrorKindView::CompileError(err) },
            ),
            Ok(text) => outputs_from(files, modules, from + 1, acc.push(text)),
        }
    }
}

/// The output of every file, where every module may use the modules of all
/// files.
pub open spec fn outputs(files: Seq<(Seq<char>, Seq<SectionView>)>) -> Result<
    Seq<Seq<char>>,
    MmgxErrorView,
> {
    outputs_from(files, registry(files), 0, Seq::empty())
}

/// Another handle to the same module.
///
/// Trusted: wraps `Rc::clone`, which makes a new pointer to the same
/// allocation, so that the module behind the result is the one behind
/// `module`.
#[verifier::external_body]
fn share(module: &Rc<MmgxModule>) -> (r: Rc<MmgxModule>)
    ensures
        r == *module,
{
    Rc::clone(module)
}

/// Gathers the modules of all files, in the order of the files and of their
/// sections.
pub fn collect_modules(files: &Vec<(String, Vec<Section>)>) -> (modules: Vec<Rc<MmgxModule>>)
    ensures
        modules.deep_view() == registry(files.deep_view()),
{
    let ghost all = files.deep_view();
    let mut modules: Vec<Rc<MmgxModule>> = Vec::new();
    assert(modules.deep_view() =~= Seq::<ModuleView>::empty());
    let mut f: usize = 0;
    while f < files.len()
        invariant
            f <= files.len(),
            all == files.deep_view(),
            registry_from(all, f as int, modules.deep_view()) == registry(all),
        decreases files.len() - f,
    {
        assert(all[f as int] == files@[f as int].deep_view());
        let sections = &files[f].1;
        let ghost sv = sections.deep_view();
        let ghost start = modules.deep_view();
        let mut i: usize = 0;
        while i < sections.len()
            invariant
                i <= sections.len(),
                sv == sections.deep_view(),
                modules_of(sv, i as int, modules.deep_view()) == modules_of(sv, 0, start),
            decreases sections.len() - i,
        {
            assert(sv[i as int] == sections@[i as int].deep_view());
            match &sections[i] {
                Section::MmgxModule(module) => {
                    let ghost before = modules.deep_view();
                    modules.push(share(module));
                    assert(modules.deep_view() =~= before.push(module.deep_view()));
                },
                Section::CSource(_) => {},
            }
            i += 1;
        }
        f += 1;
    }
    modules
}

/// What is written for `section`, where `modules` holds the modules of all
/// files.
pub fn compile_section(section: &Section, modules: &Vec<Rc<MmgxModule>>) -> (r: Result<
    String,
    CompileError,
>)
    ensures
        match section_text(section.deep_view(), modules.deep_view()) {
            Ok(text) => r matches Ok(s) && s@ == text,
            Err(err) => r matches Err(e) && e.deep_view() == err,
        },
{
    match section {
        Section::CSource(text) => Ok(text.clone()),
        Section::MmgxModule(module) => match module.compile(modules) {
            Ok(text) => Ok(text),
            Err(failure) => Err(CompileError { line: module.line, error: failure }),
        },
    }
}

/// Compiles the files of one run: gathers the modules of all of them, then
/// renders every file, section after section.  Gives the output of every
/// file, or the first failure with the path of its file.
pub fn compile(files: &Vec<(String, Vec<Section>)>) -> (r: Result<Vec<String>, MmgxError>)
    ensures
        match outputs(files.deep_view()) {
            Ok(texts) => r matches Ok(out) && out.deep_view() == texts,
            Err(err) => r matches Err(e) && e.deep_view() == err,
        },
{
    let ghost all = files.deep_view();
    let modules = collect_modules(files);
    let ghost mv = modules.deep_view();
    let mut out: Vec<String> = Vec::new();
    assert(out.deep_view() =~= Seq::<Seq<char>>::empty());
    let mut f: usize = 0;
    while f < files.len()
        invariant
            f <= files.len(),
            all == files.deep_view(),
            mv == modules.deep_view(),
            mv == registry(all),
            outputs_from(all, mv, f as int, out.deep_view()) == outputs(all),
        decreases files.len() - f,
    {
        assert(all[f as int] == files@[f as int].deep_view());
        let sections = &files[f].1;
        let ghost sv = sections.deep_view();
        let mut text = String::new();
        let mut i: usize = 0;
        while i < sections.len()
            invariant
                i <= sections.len(),
                f < files.len(),
                all == files.deep_view(),
                all[f as int] == files@[f as int].deep_view(),
                sv == sections.deep_view(),
                sv == all[f as int].1,
                mv == modules.deep_view(),
                mv == registry(all),
                outputs_from(all, mv, f as int, out.deep_view()) == outputs(all),
                sections_text(sv, mv, i as int, text@) == sections_text(sv, mv, 0, Seq::empty()),
            decreases sections.len() - i,
        {
            assert(sv[i as int] == sections@[i as int].deep_view());
            match compile_section(&sections[i], &modules) {
                Ok(piece) => {
                    text.append(piece.as_str());
                },
                Err(err) => {
                    return Err(MmgxError::compilation_error(files[f].0.as_str(), err));
                },
            }
            i += 1;
        }
        let ghost before = out.deep_view();
        out.push(text);
        assert(out.deep_view() =~= before.push(text@));
        f += 1;
    }
    Ok(out)
}

} // verus!
