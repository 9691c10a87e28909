//! Laws of the expander: what modules, objects and references render to.

use crate::ast::{
    BodyStatementView, CommandImplView, CommandView, ExternalView, ModuleView, ObjectView,
    SectionView, StatementView,
};
use crate::compile::module::{
    compile_module, compile_statement, compile_statements, find_template, implement_depth,
    module_scope, param_count, Progress,
};
use crate::compile::object::{
    call_arguments, compile_object, declares, definition_head, find_module, find_target,
    implement_prefix, render_object, render_steps, resolve, resolve_from, symbol, Binding, Scope,
};
use crate::compile::outputs;
use crate::error::{CompileErrorKindView, CompileFailureView, MmgxErrorView};
use crate::text::decimal;
use vstd::prelude::*;

verus! {

/// Whether every fragment of `body` is literal text.
pub open spec fn all_literal(body: Seq<BodyStatementView>) -> bool {
    forall|i: int| 0 <= i < body.len() ==> (#[trigger] body[i]) is Expand
}

/// `acc` followed by the literal texts of `body[from..]`.
pub open spec fn literal_text(body: Seq<BodyStatementView>, from: int, acc: Seq<char>) -> Seq<char>
    decreases body.len() - from,
{
    if from < 0 || from >= body.len() {
        acc
    } else {
        match body[from] {
            BodyStatementView::Expand(text) => literal_text(body, from + 1, acc + text),
            _ => literal_text(body, from + 1, acc),
        }
    }
}

/// Rendering literal fragments appends their texts and cannot fail.
proof fn lemma_render_literal(
    scope: Scope,
    name: Seq<char>,
    body: Seq<BodyStatementView>,
    binding: Option<Binding>,
    from: int,
    acc: Seq<char>,
    depth: nat,
)
    requires
        all_literal(body),
        0 <= from,
    ensures
        render_steps(scope, name, body, binding, from, acc, depth) == Ok::<
            Seq<char>,
            CompileFailureView,
        >(literal_text(body, from, acc)),
    decreases body.len() - from,
{
    if from < body.len() {
        assert(body[from] is Expand);
        let text = body[from]->Expand_0;
        lemma_render_literal(scope, name, body, binding, from + 1, acc + text, depth);
    }
}

/// An object of literal text in a scope renders as `#define`, its symbol, its
/// text and a line break.
proof fn lemma_literal_object(scope: Scope, obj: ObjectView, decorated: bool, depth: nat)
    requires
        all_literal(obj.body),
    ensures
        compile_object(scope, obj, decorated, None, depth) == Ok::<Seq<char>, CompileFailureView>(
            literal_text(obj.body, 0, "#define "@ + symbol(scope.prefix, obj.name, decorated))
                + "\n"@,
        ),
{
    let head = "#define "@ + symbol(scope.prefix, obj.name, decorated);
    assert(definition_head(scope, obj.name, decorated, None) == Ok::<
        Seq<char>,
        CompileErrorKindView,
    >(head));
    lemma_render_literal(scope, obj.name, obj.body, None, 0, head, depth);
}

/// A module that holds one plain object of literal text compiles to exactly
/// `#define __<Module>_<Object><text>`, a line break, and the line break that
/// follows every statement.
pub proof fn law_plain_object(module: ModuleView, registry: Seq<ModuleView>, obj: ObjectView)
    requires
        module.body == seq![StatementView::Object(obj)],
        all_literal(obj.body),
    ensures
        compile_module(module, registry) == Ok::<Seq<char>, CompileFailureView>(
            literal_text(obj.body, 0, "#define "@ + ("__"@ + module.name + "_"@ + obj.name))
                + "\n"@ + "\n"@,
        ),
{
    let start = Progress { text: Seq::empty(), externals: Seq::empty(), templates: Seq::empty() };
    let scope = module_scope(module, start.externals);
    let depth = implement_depth(start.externals);
    lemma_literal_object(scope, obj, true, depth);
    let line = literal_text(obj.body, 0, "#define "@ + symbol(module.name, obj.name, true)) + "\n"@;
    assert(compile_statement(module, registry, module.body[0], start) == Ok::<
        Progress,
        CompileFailureView,
    >(Progress { text: start.text + line, ..start }));
    assert(start.text + line =~= line);
    let next = Progress { text: line + "\n"@, ..start };
    assert(compile_statements(module, registry, 1, next) == Ok::<Seq<char>, CompileFailureView>(
        next.text,
    ));
    assert(compile_statements(module, registry, 0, start) == compile_statements(
        module,
        registry,
        1,
        next,
    ));
}

/// A module that holds one exported object of literal text compiles to
/// exactly `#define <Module>_<Object><text>`: the symbol has no decoration.
pub proof fn law_exported_object(module: ModuleView, registry: Seq<ModuleView>, obj: ObjectView)
    requires
        module.body == seq![StatementView::Command(CommandView::Export(obj))],
        all_literal(obj.body),
    ensures
        compile_module(module, registry) == Ok::<Seq<char>, CompileFailureView>(
            literal_text(obj.body, 0, "#define "@ + (module.name + "_"@ + obj.name)) + "\n"@
                + "\n"@,
        ),
{
    let start = Progress { text: Seq::empty(), externals: Seq::empty(), templates: Seq::empty() };
    let scope = module_scope(module, start.externals);
    let depth = implement_depth(start.externals);
    lemma_literal_object(scope, obj, false, depth);
    let line = literal_text(obj.body, 0, "#define "@ + symbol(module.name, obj.name, false))
        + "\n"@;
    assert(compile_statement(module, registry, module.body[0], start) == Ok::<
        Progress,
        CompileFailureView,
    >(Progress { text: start.text + line, ..start }));
    assert(start.text + line =~= line);
    let next = Progress { text: line + "\n"@, ..start };
    assert(compile_statements(module, registry, 1, next) == Ok::<Seq<char>, CompileFailureView>(
        next.text,
    ));
    assert(compile_statements(module, registry, 0, start) == compile_statements(
        module,
        registry,
        1,
        next,
    ));
}

/// Where rendering reaches a reference into a module that has not been
/// imported, it fails and names that module.
pub proof fn law_module_not_included(
    scope: Scope,
    name: Seq<char>,
    body: Seq<BodyStatementView>,
    binding: Option<Binding>,
    at: int,
    acc: Seq<char>,
    depth: nat,
    ext: ExternalView,
)
    requires
        0 <= at < body.len(),
        body[at] == BodyStatementView::External(ext),
        forall|m: int| 0 <= m < scope.externals.len() ==> scope.externals[m].name != ext.module,
    ensures
        render_steps(scope, name, body, binding, at, acc, depth) == Err::<
            Seq<char>,
            CompileFailureView,
        >(CompileFailureView::of(CompileErrorKindView::ModuleNotIncluded(ext.module))),
{
    lemma_no_module(scope.externals, ext.module, 0);
}

/// No module is found where none has the name.
proof fn lemma_no_module(modules: Seq<ModuleView>, name: Seq<char>, from: int)
    requires
        0 <= from,
        forall|m: int| 0 <= m < modules.len() ==> modules[m].name != name,
    ensures
        find_module(modules, name, from) is None,
    decreases modules.len() - from,
{
    if from < modules.len() {
        lemma_no_module(modules, name, from + 1);
    }
}

/// Among modules of one name the first one wins: the module that is found
/// has the name, and no module before it has.  Where none is found, no module
/// has the name.
pub proof fn law_first_module_wins(modules: Seq<ModuleView>, name: Seq<char>, from: int)
    requires
        0 <= from,
    ensures
        match find_module(modules, name, from) {
            Some(m) => from <= m < modules.len() && modules[m].name == name && forall|k: int|
                from <= k < m ==> modules[k].name != name,
            None => forall|k: int| from <= k < modules.len() ==> modules[k].name != name,
        },
    decreases modules.len() - from,
{
    if from < modules.len() && modules[from].name != name {
        law_first_module_wins(modules, name, from + 1);
    }
}

/// Where rendering reaches a reference to an object that the imported module
/// does not offer, it fails and names the module and the object.
pub proof fn law_object_not_found(
    scope: Scope,
    name: Seq<char>,
    body: Seq<BodyStatementView>,
    binding: Option<Binding>,
    at: int,
    acc: Seq<char>,
    depth: nat,
    ext: ExternalView,
    m: int,
)
    requires
        0 <= at < body.len(),
        body[at] == BodyStatementView::External(ext),
        find_module(scope.externals, ext.module, 0) == Some(m),
        find_target(scope.externals[m].body, ext.object, 0) is None,
    ensures
        render_steps(scope, name, body, binding, at, acc, depth) == Err::<
            Seq<char>,
            CompileFailureView,
        >(CompileFailureView::of(CompileErrorKindView::NoObjectInModule(ext))),
{
}

/// `@impl` with a number of ranges other than the number of `Param` entries
/// of its template fails and reports both numbers.
pub proof fn law_range_count_mismatch(
    module: ModuleView,
    registry: Seq<ModuleView>,
    state: Progress,
    cmd: CommandImplView,
    t: int,
)
    requires
        find_template(state.templates, cmd.template, 0) == Some(t),
        cmd.params.len() != param_count(state.templates[t].params, 0, 0),
    ensures
        compile_statement(
            module,
            registry,
            StatementView::Command(CommandView::Impl(cmd)),
            state,
        ) == Err::<Progress, CompileFailureView>(
            CompileFailureView::of(
                CompileErrorKindView::TemplateParameterOutOfRange(
                    cmd.params.len() as usize,
                    param_count(state.templates[t].params, 0, 0) as usize,
                ),
            ),
        ),
{
}

/// An object whose body is one inlining reference renders the target first,
/// under the prefix `__<prefix>_<object>_IMPL_<module>` and without
/// decoration, and then its own line, whose body is exactly that prefix.
pub proof fn law_implement_reference(
    scope: Scope,
    obj: ObjectView,
    decorated: bool,
    depth: nat,
    ext: ExternalView,
    m: int,
    target: ObjectView,
    definition: Seq<char>,
)
    requires
        obj.body == seq![BodyStatementView::External(ext)],
        ext.implement,
        depth > 0,
        find_module(scope.externals, ext.module, 0) == Some(m),
        find_target(scope.externals[m].body, ext.object, 0) == Some(target),
        compile_object(
            Scope { prefix: implement_prefix(scope.prefix, obj.name, ext.module), ..scope },
            target,
            false,
            None,
            (depth - 1) as nat,
        ) == Ok::<Seq<char>, CompileFailureView>(definition),
    ensures
        render_object(scope, obj, decorated, None, depth) == Ok::<Seq<char>, CompileFailureView>(
            definition + ("#define "@ + symbol(scope.prefix, obj.name, decorated))
                + implement_prefix(scope.prefix, obj.name, ext.module) + "\n"@,
        ),
{
    let head = "#define "@ + symbol(scope.prefix, obj.name, decorated);
    let inner = implement_prefix(scope.prefix, obj.name, ext.module);
    assert(definition_head(scope, obj.name, decorated, None) == Ok::<
        Seq<char>,
        CompileErrorKindView,
    >(head));
    assert(render_steps(scope, obj.name, obj.body, None, 1, definition + head + inner, depth)
        == Ok::<Seq<char>, CompileFailureView>(definition + head + inner));
    assert(render_steps(scope, obj.name, obj.body, None, 0, head, depth) == render_steps(
        scope,
        obj.name,
        obj.body,
        None,
        1,
        definition + head + inner,
        depth,
    ));
}

/// Compiling is a function of the parsed files alone: two runs on files with
/// the same contents end the same way, whatever ran before them.
pub proof fn law_compile_is_pure(
    files: Seq<(Seq<char>, Seq<SectionView>)>,
    again: Seq<(Seq<char>, Seq<SectionView>)>,
    first: Result<Seq<Seq<char>>, MmgxErrorView>,
    second: Result<Seq<Seq<char>>, MmgxErrorView>,
)
    requires
        files =~~= again,
        first == outputs(files),
        second == outputs(again),
    ensures
        first == second,
{
}

/// Searching from `from` finds the declaration at `at` where no statement
/// between them declares the name.
proof fn lemma_resolve_from(
    name: Seq<char>,
    body: Seq<StatementView>,
    prefix: Seq<char>,
    from: int,
    at: int,
    decorated: bool,
)
    requires
        0 <= from <= at < body.len(),
        declares(body[at], name) == Some(decorated),
        forall|k: int| from <= k < at ==> declares(#[trigger] body[k], name) is None,
    ensures
        resolve_from(name, body, prefix, from) == symbol(prefix, name, decorated),
    decreases at - from,
{
    if from < at {
        assert(declares(body[from], name) is None);
        lemma_resolve_from(name, body, prefix, from + 1, at, decorated);
    }
}

/// No statement from `from` on declares the name: it stands for itself.
proof fn lemma_resolve_nothing(
    name: Seq<char>,
    body: Seq<StatementView>,
    prefix: Seq<char>,
    from: int,
)
    requires
        0 <= from,
        forall|k: int| from <= k < body.len() ==> declares(#[trigger] body[k], name) is None,
    ensures
        resolve_from(name, body, prefix, from) == name,
    decreases body.len() - from,
{
    if from < body.len() {
        assert(declares(body[from], name) is None);
        lemma_resolve_nothing(name, body, prefix, from + 1);
    }
}

/// A name stands for the symbol of its first declaration in the module, in
/// the order of the statements, whatever is declared under the same name
/// later.
pub proof fn law_first_declaration_wins(
    name: Seq<char>,
    body: Seq<StatementView>,
    prefix: Seq<char>,
    at: int,
    decorated: bool,
)
    requires
        0 <= at < body.len(),
        declares(body[at], name) == Some(decorated),
        forall|k: int| 0 <= k < at ==> declares(#[trigger] body[k], name) is None,
    ensures
        resolve(name, body, prefix) == symbol(prefix, name, decorated),
{
    lemma_resolve_from(name, body, prefix, 0, at, decorated);
}

/// A name that the module does not declare is left as it is.
pub proof fn law_undeclared_name_passes_through(
    name: Seq<char>,
    body: Seq<StatementView>,
    prefix: Seq<char>,
)
    requires
        forall|k: int| 0 <= k < body.len() ==> declares(#[trigger] body[k], name) is None,
    ensures
        resolve(name, body, prefix) == name,
{
    lemma_resolve_nothing(name, body, prefix, 0);
}

/// Rendering was cut short: it failed because inlining references nested
/// deeper than allowed.
pub open spec fn cut_short(r: Result<Seq<char>, CompileFailureView>) -> bool {
    match r {
        Err(failure) => failure.kind is RecursiveImplement,
        Ok(_) => false,
    }
}

/// Fragments that render without being cut short render the same with
/// any greater depth.
proof fn lemma_steps_with_more_depth(
    scope: Scope,
    name: Seq<char>,
    body: Seq<BodyStatementView>,
    binding: Option<Binding>,
    from: int,
    acc: Seq<char>,
    depth: nat,
    more: nat,
)
    requires
        depth <= more,
        !cut_short(render_steps(scope, name, body, binding, from, acc, depth)),
    ensures
        render_steps(scope, name, body, binding, from, acc, more) == render_steps(
            scope,
            name,
            body,
            binding,
            from,
            acc,
            depth,
        ),
    decreases depth, body.len() - from,
{
    if 0 <= from < body.len() {
        match body[from] {
            BodyStatementView::Expand(text) => {
                lemma_steps_with_more_depth(
                    scope,
                    name,
                    body,
                    binding,
                    from + 1,
                    acc + text,
                    depth,
                    more,
                );
            },
            BodyStatementView::Parameter(index) => {
                if let Some(b) = binding {
                    if index < b.values.len() {
                        lemma_steps_with_more_depth(
                            scope,
                            name,
                            body,
                            binding,
                            from + 1,
                            acc + decimal(b.values[index as int] as nat),
                            depth,
                            more,
                        );
                    }
                }
            },
            BodyStatementView::OptDependency(dep) => {
                lemma_steps_with_more_depth(
                    scope,
                    name,
                    body,
                    binding,
                    from + 1,
                    acc + resolve(dep, scope.parent, scope.prefix),
                    depth,
                    more,
                );
            },
            BodyStatementView::TemplateCall(call) => {
                lemma_steps_with_more_depth(
                    scope,
                    name,
                    body,
                    binding,
                    from + 1,
                    call_arguments(
                        binding,
                        call.args,
                        0,
                        acc + resolve(call.name, scope.parent, scope.prefix),
                    ),
                    depth,
                    more,
                );
            },
            BodyStatementView::External(ext) => {
                if let Some(m) = find_module(scope.externals, ext.module, 0) {
                    if let Some(target) = find_target(scope.externals[m].body, ext.object, 0) {
                        if !ext.implement {
                            lemma_steps_with_more_depth(
                                scope,
                                name,
                                body,
                                binding,
                                from + 1,
                                acc + "__"@ + ext.module + "_"@ + ext.object,
                                depth,
                                more,
                            );
                        } else if depth > 0 {
                            let inner = implement_prefix(scope.prefix, name, ext.module);
                            let inner_scope = Scope { prefix: inner, ..scope };
                            lemma_object_with_more_depth(
                                inner_scope,
                                target,
                                false,
                                None,
                                (depth - 1) as nat,
                                (more - 1) as nat,
                            );
                            match compile_object(
                                inner_scope,
                                target,
                                false,
                                None,
                                (depth - 1) as nat,
                            ) {
                                Err(_) => {},
                                Ok(definition) => {
                                    lemma_steps_with_more_depth(
                                        scope,
                                        name,
                                        body,
                                        binding,
                                        from + 1,
                                        definition + acc + inner,
                                        depth,
                                        more,
                                    );
                                },
                            }
                        }
                    }
                }
            },
        }
    }
}

/// An object that compiles without being cut short compiles the same with
/// any greater depth.
proof fn lemma_object_with_more_depth(
    scope: Scope,
    obj: ObjectView,
    decorated: bool,
    binding: Option<Binding>,
    depth: nat,
    more: nat,
)
    requires
        depth <= more,
        !cut_short(compile_object(scope, obj, decorated, binding, depth)),
    ensures
        compile_object(scope, obj, decorated, binding, more) == compile_object(
            scope,
            obj,
            decorated,
            binding,
            depth,
        ),
    decreases depth, obj.body.len() + 1,
{
    match definition_head(scope, obj.name, decorated, binding) {
        Err(_) => {},
        Ok(head) => {
            lemma_steps_with_more_depth(scope, obj.name, obj.body, binding, 0, head, depth, more);
        },
    }
}

/// The bound on the depth of inlining does nothing but end references that
/// lead back to themselves: what an object compiles to, or how it fails
/// otherwise, stays the same however much deeper references may nest.
pub proof fn law_depth_only_ends_cycles(
    scope: Scope,
    obj: ObjectView,
    decorated: bool,
    binding: Option<Binding>,
    depth: nat,
    more: nat,
)
    requires
        depth <= more,
        !cut_short(compile_object(scope, obj, decorated, binding, depth)),
    ensures
        compile_object(scope, obj, decorated, binding, more) == compile_object(
            scope,
            obj,
            decorated,
            binding,
            depth,
        ),
{
    lemma_object_with_more_depth(scope, obj, decorated, binding, depth, more);
}

} // verus!
