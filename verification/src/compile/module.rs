//! Compiling one module: its statements in order, and the instances of its
//! templates.

use crate::ast::{
    Command, CommandView, ImplRange, MmgxModule, ModuleView, Statement, StatementView, Template,
    TemplateParameter, TemplateParameterView, TemplateView,
};
use crate::compile::object::{
    compile_object, find_module, rendered, scope_of, Binding, Scope,
};
use crate::error::{CompileErrorKind, CompileErrorKindView, CompileFailure, CompileFailureView};
use std::rc::Rc;
use vstd::prelude::*;
use vstd::string::*;

verus! {

/// The text `acc` after every instance of `template` with values for the slots
/// `slot..` taken from `ranges[slot..]` has been rendered onto it, the values of
/// an earlier slot changing slowest.  The slots before `slot` keep the values
/// that `values` gives them.
pub open spec fn expand_slots(
    scope: Scope,
    template: TemplateView,
    decorated: bool,
    ranges: Seq<ImplRange>,
    slot: int,
    values: Seq<usize>,
    acc: Seq<char>,
    depth: nat,
) -> Result<Seq<char>, CompileFailureView>
    decreases ranges.len() - slot, 1nat, 0nat,
{
    if slot < 0 || slot >= ranges.len() {
        match compile_object(
            scope,
            template.obj,
            decorated,
            Some(Binding { values, params: template.params }),
            depth,
        ) {
            Ok(text) => Ok(acc + text),
            Err(failure) => Err(failure),
        }
    } else if ranges[slot].first > ranges[slot].last {
        Ok(acc)
    } else {
        expand_values(
            scope,
            template,
            decorated,
            ranges,
            slot,
            ranges[slot].first as int,
            values,
            acc,
            depth,
        )
    }
}

/// `expand_slots` for the values `value..=ranges[slot].last` of the slot `slot`,
/// in rising order.
pub open spec fn expand_values(
    scope: Scope,
    template: TemplateView,
    decorated: bool,
    ranges: Seq<ImplRange>,
    slot: int,
    value: int,
    values: Seq<usize>,
    acc: Seq<char>,
    depth: nat,
) -> Result<Seq<char>, CompileFailureView>
    decreases ranges.len() - slot, 0nat, ranges[slot].last - value + 1,
{
    if slot < 0 || slot >= ranges.len() || value < 0 || value > ranges[slot].last {
        Ok(acc)
    } else {
        match expand_slots(
            scope,
            template,
            decorated,
            ranges,
            slot + 1,
            values.update(slot, value as usize),
            acc,
            depth,
        ) {
            Err(failure) => Err(failure),
            Ok(text) => expand_values(
                scope,
                template,
                decorated,
                ranges,
                slot,
                value + 1,
                values,
                text,
                depth,
            ),
        }
    }
}

/// Two value lists of one length that agree before `slot`.
pub open spec fn agree_before(a: Seq<usize>, b: Seq<usize>, slot: int) -> bool {
    &&& a.len() == b.len()
    &&& forall|j: int| 0 <= j < slot && j < a.len() ==> a[j] == b[j]
}

/// Expanding the slots from `slot` on reads no value at or after `slot`.
pub proof fn lemma_expand_slots_frame(
    scope: Scope,
    template: TemplateView,
    decorated: bool,
    ranges: Seq<ImplRange>,
    slot: int,
    a: Seq<usize>,
    b: Seq<usize>,
    acc: Seq<char>,
    depth: nat,
)
    requires
        0 <= slot <= ranges.len(),
        a.len() == ranges.len(),
        agree_before(a, b, slot),
    ensures
        expand_slots(scope, template, decorated, ranges, slot, a, acc, depth) == expand_slots(
            scope,
            template,
            decorated,
            ranges,
            slot,
            b,
            acc,
            depth,
        ),
    decreases ranges.len() - slot, 1nat, 0nat,
{
    if slot >= ranges.len() {
        assert(a =~= b);
    } else if ranges[slot].first > ranges[slot].last {
    } else {
        lemma_expand_values_frame(
            scope,
            template,
            decorated,
            ranges,
            slot,
            ranges[slot].first as int,
            a,
            b,
            acc,
            depth,
        );
    }
}

/// Expanding the values of `slot` reads no value at or after `slot`.
pub proof fn lemma_expand_values_frame(
    scope: Scope,
    template: TemplateView,
    decorated: bool,
    ranges: Seq<ImplRange>,
    slot: int,
    value: int,
    a: Seq<usize>,
    b: Seq<usize>,
    acc: Seq<char>,
    depth: nat,
)
    requires
        0 <= slot < ranges.len(),
        a.len() == ranges.len(),
        agree_before(a, b, slot),
    ensures
        expand_values(scope, template, decorated, ranges, slot, value, a, acc, depth)
            == expand_values(scope, template, decorated, ranges, slot, value, b, acc, depth),
    decreases ranges.len() - slot, 0nat, ranges[slot].last - value + 1,
{
    if value < 0 || value > ranges[slot].last {
    } else {
        let a1 = a.update(slot, value as usize);
        let b1 = b.update(slot, value as usize);
        lemma_expand_slots_frame(scope, template, decorated, ranges, slot + 1, a1, b1, acc, depth);
        match expand_slots(scope, template, decorated, ranges, slot + 1, a1, acc, depth) {
            Err(_) => {},
            Ok(text) => {
                lemma_expand_values_frame(
                    scope,
                    template,
                    decorated,
                    ranges,
                    slot,
                    value + 1,
                    a,
                    b,
                    text,
                    depth,
                );
            },
        }
    }
}

/// The text that rendering the instances of `template` reaches, with the
/// arguments of `expand_slots`: `acc` followed by every instance that is
/// rendered before the first failure, and by all of them where none fails.
pub open spec fn slots_text(
    scope: Scope,
    template: TemplateView,
    decorated: bool,
    ranges: Seq<ImplRange>,
    slot: int,
    values: Seq<usize>,
    acc: Seq<char>,
    depth: nat,
) -> Seq<char>
    decreases ranges.len() - slot, 1nat, 0nat,
{
    if slot < 0 || slot >= ranges.len() {
        match compile_object(
            scope,
            template.obj,
            decorated,
            Some(Binding { values, params: template.params }),
            depth,
        ) {
            Ok(text) => acc + text,
            Err(_) => acc,
        }
    } else if ranges[slot].first > ranges[slot].last {
        acc
    } else {
        values_text(
            scope,
            template,
            decorated,
            ranges,
            slot,
            ranges[slot].first as int,
            values,
            acc,
            depth,
        )
    }
}

/// `slots_text` for the values `value..=ranges[slot].last` of the slot `slot`.
pub open spec fn values_text(
    scope: Scope,
    template: TemplateView,
    decorated: bool,
    ranges: Seq<ImplRange>,
    slot: int,
    value: int,
    values: Seq<usize>,
    acc: Seq<char>,
    depth: nat,
) -> Seq<char>
    decreases ranges.len() - slot, 0nat, ranges[slot].last - value + 1,
{
    if slot < 0 || slot >= ranges.len() || value < 0 || value > ranges[slot].last {
        acc
    } else {
        let inner = values.update(slot, value as usize);
        match expand_slots(scope, template, decorated, ranges, slot + 1, inner, acc, depth) {
            Err(_) => slots_text(scope, template, decorated, ranges, slot + 1, inner, acc, depth),
            Ok(text) => values_text(
                scope,
                template,
                decorated,
                ranges,
                slot,
                value + 1,
                values,
                text,
                depth,
            ),
        }
    }
}

/// The values that `values` holds once the instances have been rendered,
/// with the arguments of `expand_slots`: every slot from `slot` on that was
/// given a value holds the last one it was given.  Where an instance fails,
/// these are the values of that instance.
pub open spec fn slots_values(
    scope: Scope,
    template: TemplateView,
    decorated: bool,
    ranges: Seq<ImplRange>,
    slot: int,
    values: Seq<usize>,
    acc: Seq<char>,
    depth: nat,
) -> Seq<usize>
    decreases ranges.len() - slot, 1nat, 0nat,
{
    if slot < 0 || slot >= ranges.len() || ranges[slot].first > ranges[slot].last {
        values
    } else {
        values_values(
            scope,
            template,
            decorated,
            ranges,
            slot,
            ranges[slot].first as int,
            values,
            acc,
            depth,
        )
    }
}

/// `slots_values` for the values `value..=ranges[slot].last` of the slot
/// `slot`.
pub open spec fn values_values(
    scope: Scope,
    template: TemplateView,
    decorated: bool,
    ranges: Seq<ImplRange>,
    slot: int,
    value: int,
    values: Seq<usize>,
    acc: Seq<char>,
    depth: nat,
) -> Seq<usize>
    decreases ranges.len() - slot, 0nat, ranges[slot].last - value + 1,
{
    if slot < 0 || slot >= ranges.len() || value < 0 || value > ranges[slot].last {
        values
    } else {
        let inner = values.update(slot, value as usize);
        let after = slots_values(scope, template, decorated, ranges, slot + 1, inner, acc, depth);
        match expand_slots(scope, template, decorated, ranges, slot + 1, inner, acc, depth) {
            Err(_) => after,
            Ok(text) => values_values(
                scope,
                template,
                decorated,
                ranges,
                slot,
                value + 1,
                after,
                text,
                depth,
            ),
        }
    }
}

/// The text reached from the slot `slot` on depends on no value at or after
/// `slot`.
pub proof fn lemma_slots_text_frame(
    scope: Scope,
    template: TemplateView,
    decorated: bool,
    ranges: Seq<ImplRange>,
    slot: int,
    a: Seq<usize>,
    b: Seq<usize>,
    acc: Seq<char>,
    depth: nat,
)
    requires
        0 <= slot <= ranges.len(),
        a.len() == ranges.len(),
        agree_before(a, b, slot),
    ensures
        slots_text(scope, template, decorated, ranges, slot, a, acc, depth) == slots_text(
            scope,
            template,
            decorated,
            ranges,
            slot,
            b,
            acc,
            depth,
        ),
    decreases ranges.len() - slot, 1nat, 0nat,
{
    if slot >= ranges.len() {
        assert(a =~= b);
    } else if ranges[slot].first > ranges[slot].last {
    } else {
        lemma_values_text_frame(
            scope,
            template,
            decorated,
            ranges,
            slot,
            ranges[slot].first as int,
            a,
            b,
            acc,
            depth,
        );
    }
}

/// The text reached with the values of `slot` depends on no value at or
/// after `slot`.
pub proof fn lemma_values_text_frame(
    scope: Scope,
    template: TemplateView,
    decorated: bool,
    ranges: Seq<ImplRange>,
    slot: int,
    value: int,
    a: Seq<usize>,
    b: Seq<usize>,
    acc: Seq<char>,
    depth: nat,
)
    requires
        0 <= slot < ranges.len(),
        a.len() == ranges.len(),
        agree_before(a, b, slot),
    ensures
        values_text(scope, template, decorated, ranges, slot, value, a, acc, depth)
            == values_text(scope, template, decorated, ranges, slot, value, b, acc, depth),
    decreases ranges.len() - slot, 0nat, ranges[slot].last - value + 1,
{
    if value < 0 || value > ranges[slot].last {
    } else {
        let a1 = a.update(slot, value as usize);
        let b1 = b.update(slot, value as usize);
        lemma_expand_slots_frame(scope, template, decorated, ranges, slot + 1, a1, b1, acc, depth);
        lemma_slots_text_frame(scope, template, decorated, ranges, slot + 1, a1, b1, acc, depth);
        match expand_slots(scope, template, decorated, ranges, slot + 1, a1, acc, depth) {
            Err(_) => {},
            Ok(text) => {
                lemma_values_text_frame(
                    scope,
                    template,
                    decorated,
                    ranges,
                    slot,
                    value + 1,
                    a,
                    b,
                    text,
                    depth,
                );
            },
        }
    }
}

/// Whether every instance of `template` fails, whatever values are bound.
pub open spec fn always_fails(
    scope: Scope,
    template: TemplateView,
    decorated: bool,
    depth: nat,
) -> bool {
    forall|values: Seq<usize>|
        (#[trigger] compile_object(
            scope,
            template.obj,
            decorated,
            Some(Binding { values, params: template.params }),
            depth,
        )) is Err
}

/// What holds of the text that is reached: where nothing fails it is the
/// text that `expand_slots` gives; it always starts with the text that was
/// there before; and where every instance fails it is that text unchanged.
pub proof fn lemma_slots_text(
    scope: Scope,
    template: TemplateView,
    decorated: bool,
    ranges: Seq<ImplRange>,
    slot: int,
    values: Seq<usize>,
    acc: Seq<char>,
    depth: nat,
)
    ensures
        match expand_slots(scope, template, decorated, ranges, slot, values, acc, depth) {
            Ok(text) => slots_text(scope, template, decorated, ranges, slot, values, acc, depth)
                == text,
            Err(_) => true,
        },
        acc.is_prefix_of(
            slots_text(scope, template, decorated, ranges, slot, values, acc, depth),
        ),
        always_fails(scope, template, decorated, depth) ==> slots_text(
            scope,
            template,
            decorated,
            ranges,
            slot,
            values,
            acc,
            depth,
        ) == acc,
    decreases ranges.len() - slot, 1nat, 0nat,
{
    if slot < 0 || slot >= ranges.len() {
        match compile_object(
            scope,
            template.obj,
            decorated,
            Some(Binding { values, params: template.params }),
            depth,
        ) {
            Ok(text) => {
                assert(acc.is_prefix_of(acc + text));
            },
            Err(_) => {},
        }
    } else if ranges[slot].first > ranges[slot].last {
    } else {
        lemma_values_text(
            scope,
            template,
            decorated,
            ranges,
            slot,
            ranges[slot].first as int,
            values,
            acc,
            depth,
        );
    }
}

/// `lemma_slots_text` for the values of one slot.
pub proof fn lemma_values_text(
    scope: Scope,
    template: TemplateView,
    decorated: bool,
    ranges: Seq<ImplRange>,
    slot: int,
    value: int,
    values: Seq<usize>,
    acc: Seq<char>,
    depth: nat,
)
    requires
        0 <= slot < ranges.len(),
    ensures
        match expand_values(scope, template, decorated, ranges, slot, value, values, acc, depth) {
            Ok(text) => values_text(
                scope,
                template,
                decorated,
                ranges,
                slot,
                value,
                values,
                acc,
                depth,
            ) == text,
            Err(_) => true,
        },
        acc.is_prefix_of(
            values_text(scope, template, decorated, ranges, slot, value, values, acc, depth),
        ),
        always_fails(scope, template, decorated, depth) ==> values_text(
            scope,
            template,
            decorated,
            ranges,
            slot,
            value,
            values,
            acc,
            depth,
        ) == acc,
    decreases ranges.len() - slot, 0nat, ranges[slot].last - value + 1,
{
    if value < 0 || value > ranges[slot].last {
    } else {
        let inner = values.update(slot, value as usize);
        lemma_slots_text(scope, template, decorated, ranges, slot + 1, inner, acc, depth);
        match expand_slots(scope, template, decorated, ranges, slot + 1, inner, acc, depth) {
            Err(_) => {},
            Ok(text) => {
                lemma_values_text(
                    scope,
                    template,
                    decorated,
                    ranges,
                    slot,
                    value + 1,
                    values,
                    text,
                    depth,
                );
                let end = values_text(
                    scope,
                    template,
                    decorated,
                    ranges,
                    slot,
                    value + 1,
                    values,
                    text,
                    depth,
                );
                assert(acc.is_prefix_of(end)) by {
                    assert(acc.is_prefix_of(text));
                    assert(text.is_prefix_of(end));
                    assert(acc =~= end.subrange(0, acc.len() as int)) by {
                        assert(text == end.subrange(0, text.len() as int));
                        assert(acc == text.subrange(0, acc.len() as int));
                    }
                }
            },
        }
    }
}

/// The number of statements of `modules[from..]`, added to `acc` and capped at
/// `usize::MAX`.
pub open spec fn statement_count(modules: Seq<ModuleView>, from: int, acc: nat) -> nat
    decreases modules.len() - from,
{
    if from < 0 || from >= modules.len() {
        acc
    } else {
        let sum = acc + modules[from].body.len();
        statement_count(
            modules,
            from + 1,
            if sum > usize::MAX {
                usize::MAX as nat
            } else {
                sum
            },
        )
    }
}

/// How deep inlining references may nest when `externals` are imported: the
/// number of statements that could be a target.  A chain of references that
/// is longer visits one target twice and would never end.
pub open spec fn implement_depth(externals: Seq<ModuleView>) -> nat {
    statement_count(externals, 0, 0)
}

/// The index of the first template at or after `from` that is called `name`.
pub open spec fn find_template(templates: Seq<TemplateView>, name: Seq<char>, from: int) -> Option<
    int,
>
    decreases templates.len() - from,
{
    if from < 0 || from >= templates.len() {
        None
    } else if templates[from].obj.name == name {
        Some(from)
    } else {
        find_template(templates, name, from + 1)
    }
}

/// The number of `Param` entries of `params[from..]`, added to `acc`.
pub open spec fn param_count(params: Seq<TemplateParameterView>, from: int, acc: nat) -> nat
    decreases params.len() - from,
{
    if from < 0 || from >= params.len() {
        acc
    } else {
        match params[from] {
            TemplateParameterView::Param(_) => param_count(params, from + 1, acc + 1),
            TemplateParameterView::Reference(_) => param_count(params, from + 1, acc),
        }
    }
}

/// What compiling a module has gathered so far: the text, the modules that
/// `@use` has imported and the templates that have been declared.
pub struct Progress {
    pub text: Seq<char>,
    pub externals: Seq<ModuleView>,
    pub templates: Seq<TemplateView>,
}

/// The scope of the objects of `module` once `externals` are imported.
pub open spec fn module_scope(module: ModuleView, externals: Seq<ModuleView>) -> Scope {
    Scope { parent: module.body, prefix: module.name, externals }
}

/// `state` after the statement `stmt` of `module` has been compiled.
///
/// `@use` adds the first module of `registry` with that name to the imports.
/// A template is recorded and renders nothing.  `@impl` renders every instance
/// of a template recorded before it, and needs as many ranges as the template
/// has `Param` entries.  Objects and exported objects are rendered where they
/// stand, exported ones undecorated.  A comment is copied.
pub open spec fn compile_statement(
    module: ModuleView,
    registry: Seq<ModuleView>,
    stmt: StatementView,
    state: Progress,
) -> Result<Progress, CompileFailureView> {
    let scope = module_scope(module, state.externals);
    let depth = implement_depth(state.externals);
    match stmt {
        StatementView::Command(CommandView::Use(name)) => match find_module(registry, name, 0) {
            Some(m) => Ok(Progress { externals: state.externals.push(registry[m]), ..state }),
            None => Err(CompileFailureView::of(CompileErrorKindView::ModuleNotFound(name))),
        },
        StatementView::Command(CommandView::Impl(cmd)) => match find_template(
            state.templates,
            cmd.template,
            0,
        ) {
            None => Err(
                CompileFailureView::of(CompileErrorKindView::TemplateNotFound(cmd.template)),
            ),
            Some(t) => {
                let template = state.templates[t];
                let count = param_count(template.params, 0, 0);
                if cmd.params.len() == count {
                    match expand_slots(
                        scope,
                        template,
                        true,
                        cmd.params,
                        0,
                        Seq::new(count, |i: int| 0usize),
                        state.text,
                        depth,
                    ) {
                        Ok(text) => Ok(Progress { text, ..state }),
                        Err(failure) => Err(failure),
                    }
                } else {
                    Err(
                        CompileFailureView::of(
                            CompileErrorKindView::TemplateParameterOutOfRange(
                                cmd.params.len() as usize,
                                count as usize,
                            ),
                        ),
                    )
                }
            },
        },
        StatementView::Command(CommandView::Export(obj)) => match compile_object(
            scope,
            obj,
            false,
            None,
            depth,
        ) {
            Ok(text) => Ok(Progress { text: state.text + text, ..state }),
            Err(failure) => Err(failure),
        },
        StatementView::Object(obj) => match compile_object(scope, obj, true, None, depth) {
            Ok(text) => Ok(Progress { text: state.text + text, ..state }),
            Err(failure) => Err(failure),
        },
        StatementView::Template(template) => Ok(
            Progress { templates: state.templates.push(template), ..state },
        ),
        StatementView::Comment(text) => Ok(Progress { text: state.text + text, ..state }),
    }
}

/// The text of `module` once the statements `module.body[from..]` have been
/// compiled in order, starting from `state`.  Each statement is followed by a
/// line break.
pub open spec fn compile_statements(
    module: ModuleView,
    registry: Seq<ModuleView>,
    from: int,
    state: Progress,
) -> Result<Seq<char>, CompileFailureView>
    decreases module.body.len() - from,
{
    if from < 0 || from >= module.body.len() {
        Ok(state.text)
    } else {
        match compile_statement(module, registry, module.body[from], state) {
            Err(failure) => Err(failure),
            Ok(next) => compile_statements(
                module,
                registry,
                from + 1,
                Progress { text: next.text + "\n"@, ..next },
            ),
        }
    }
}

/// The expansion of `module`, where `registry` holds the modules of all files.
pub open spec fn render_module(module: ModuleView, registry: Seq<ModuleView>) -> Result<
    Seq<char>,
    CompileFailureView,
> {
    compile_statements(
        module,
        registry,
        0,
        Progress { text: Seq::empty(), externals: Seq::empty(), templates: Seq::empty() },
    )
}

/// `render_module`, with the module's name added to the context of a failure.
pub open spec fn compile_module(module: ModuleView, registry: Seq<ModuleView>) -> Result<
    Seq<char>,
    CompileFailureView,
> {
    match render_module(module, registry) {
        Ok(text) => Ok(text),
        Err(failure) => Err(failure.within(module.name)),
    }
}

/// How deep inlining references may nest when `externals` are imported.
fn depth_limit(externals: &Vec<&Rc<MmgxModule>>) -> (r: usize)
    ensures
        r == implement_depth(externals.deep_view()),
{
    let mut total: usize = 0;
    let mut i: usize = 0;
    while i < externals.len()
        invariant
            i <= externals.len(),
            statement_count(externals.deep_view(), i as int, total as nat) == implement_depth(
                externals.deep_view(),
            ),
        decreases externals.len() - i,
    {
        assert(externals.deep_view()[i as int] == externals@[i as int].deep_view());
        let n = externals[i].body.len();
        total = if n > usize::MAX - total {
            usize::MAX
        } else {
            total + n
        };
        i += 1;
    }
    total
}

/// Finds the first template called `name`.
fn lookup_template(templates: &Vec<&Template>, name: &String) -> (r: Option<usize>)
    ensures
        match r {
            Some(t) => find_template(templates.deep_view(), name@, 0) == Some(t as int)
                && t < templates.len(),
            None => find_template(templates.deep_view(), name@, 0) is None,
        },
{
    let mut i: usize = 0;
    while i < templates.len()
        invariant
            i <= templates.len(),
            find_template(templates.deep_view(), name@, 0) == find_template(
                templates.deep_view(),
                name@,
                i as int,
            ),
        decreases templates.len() - i,
    {
        assert(templates.deep_view()[i as int] == templates@[i as int].deep_view());
        if templates[i].obj.name == *name {
            return Some(i);
        }
        i += 1;
    }
    None
}

/// Counts the `Param` entries of `params`.
fn count_params(params: &Vec<TemplateParameter>) -> (r: usize)
    ensures
        r == param_count(params.deep_view(), 0, 0),
{
    let mut count: usize = 0;
    let mut i: usize = 0;
    while i < params.len()
        invariant
            count <= i <= params.len(),
            param_count(params.deep_view(), i as int, count as nat) == param_count(
                params.deep_view(),
                0,
                0,
            ),
        decreases params.len() - i,
    {
        assert(params.deep_view()[i as int] == params@[i as int].deep_view());
        match &params[i] {
            TemplateParameter::Param(_) => {
                count += 1;
            },
            TemplateParameter::Reference(_) => {},
        }
        i += 1;
    }
    count
}

/// Finds the first module of the registry called `name`.
fn lookup_registered(modules: &Vec<Rc<MmgxModule>>, name: &String) -> (r: Option<usize>)
    ensures
        match r {
            Some(m) => find_module(modules.deep_view(), name@, 0) == Some(m as int)
                && m < modules.len(),
            None => find_module(modules.deep_view(), name@, 0) is None,
        },
{
    let mut i: usize = 0;
    while i < modules.len()
        invariant
            i <= modules.len(),
            find_module(modules.deep_view(), name@, 0) == find_module(
                modules.deep_view(),
                name@,
                i as int,
            ),
        decreases modules.len() - i,
    {
        assert(modules.deep_view()[i as int] == modules@[i as int].deep_view());
        if modules[i].name == *name {
            return Some(i);
        }
        i += 1;
    }
    None
}

impl MmgxModule {
    /// The name of the module.
    pub fn name(&self) -> (r: &String)
        ensures
            r@ == self.name@,
    {
        &self.name
    }

    /// Appends to `res` every instance of `template` over `ranges[idx..]`, the
    /// values of an earlier slot changing slowest.  `param` holds the values of
    /// the slots before `idx` and is used to hold those of the others.
    ///
    /// The first instance that fails ends the work: `res` then holds what it
    /// held before and the instances rendered up to there.
    pub fn recursive_impl(
        res: &mut String,
        template: &Template,
        parent: &MmgxModule,
        prefix_name: &String,
        prefix: bool,
        external: &Vec<&Rc<MmgxModule>>,
        ranges: &Vec<ImplRange>,
        param: &mut Vec<usize>,
        idx: usize,
        depth: usize,
    ) -> (r: Result<(), CompileFailure>)
        requires
            idx <= ranges.len(),
            old(param).len() == ranges.len(),
        ensures
            agree_before(old(param)@, final(param)@, idx as int),
            match expand_slots(
                scope_of(parent, prefix_name, external),
                template.deep_view(),
                prefix,
                ranges@,
                idx as int,
                old(param)@,
                old(res)@,
                depth as nat,
            ) {
                Ok(text) => r is Ok && final(res)@ == text,
                Err(failure) => r matches Err(f) && f.deep_view() == failure,
            },
            final(res)@ == slots_text(
                scope_of(parent, prefix_name, external),
                template.deep_view(),
                prefix,
                ranges@,
                idx as int,
                old(param)@,
                old(res)@,
                depth as nat,
            ),
            old(res)@.is_prefix_of(final(res)@),
            always_fails(
                scope_of(parent, prefix_name, external),
                template.deep_view(),
                prefix,
                depth as nat,
            ) ==> final(res)@ == old(res)@,
            final(param)@ == slots_values(
                scope_of(parent, prefix_name, external),
                template.deep_view(),
                prefix,
                ranges@,
                idx as int,
                old(param)@,
                old(res)@,
                depth as nat,
            ),
        decreases ranges.len() - idx,
    {
        let ghost scope = scope_of(parent, prefix_name, external);
        let ghost tv = template.deep_view();
        let ghost reached = slots_text(
            scope,
            tv,
            prefix,
            ranges@,
            idx as int,
            old(param)@,
            old(res)@,
            depth as nat,
        );
        proof {
            lemma_slots_text(
                scope,
                tv,
                prefix,
                ranges@,
                idx as int,
                old(param)@,
                old(res)@,
                depth as nat,
            );
        }
        if idx >= ranges.len() {
            match template.obj.compile(
                parent,
                prefix_name,
                prefix,
                external,
                Some((&*param, &template.params)),
                depth,
            ) {
                Ok(text) => {
                    res.append(text.as_str());
                    Ok(())
                },
                Err(failure) => Err(failure),
            }
        } else {
            let range = ranges[idx];
            if range.first > range.last {
                return Ok(());
            }
            let mut value: usize = range.first;
            loop
                invariant_except_break
                    range.first <= value <= range.last,
                    expand_values(
                        scope,
                        tv,
                        prefix,
                        ranges@,
                        idx as int,
                        value as int,
                        param@,
                        res@,
                        depth as nat,
                    ) == expand_slots(
                        scope,
                        tv,
                        prefix,
                        ranges@,
                        idx as int,
                        old(param)@,
                        old(res)@,
                        depth as nat,
                    ),
                    values_text(
                        scope,
                        tv,
                        prefix,
                        ranges@,
                        idx as int,
                        value as int,
                        param@,
                        res@,
                        depth as nat,
                    ) == reached,
                    values_values(
                        scope,
                        tv,
                        prefix,
                        ranges@,
                        idx as int,
                        value as int,
                        param@,
                        res@,
                        depth as nat,
                    ) == slots_values(
                        scope,
                        tv,
                        prefix,
                        ranges@,
                        idx as int,
                        old(param)@,
                        old(res)@,
                        depth as nat,
                    ),
                invariant
                    idx < ranges.len(),
                    range == ranges@[idx as int],
                    param.len() == ranges.len(),
                    agree_before(old(param)@, param@, idx as int),
                    reached == slots_text(
                        scope,
                        tv,
                        prefix,
                        ranges@,
                        idx as int,
                        old(param)@,
                        old(res)@,
                        depth as nat,
                    ),
                    old(res)@.is_prefix_of(reached),
                    always_fails(scope, tv, prefix, depth as nat) ==> reached == old(res)@,
                    tv == template.deep_view(),
                    scope == scope_of(parent, prefix_name, external),
                ensures
                    expand_slots(
                        scope,
                        tv,
                        prefix,
                        ranges@,
                        idx as int,
                        old(param)@,
                        old(res)@,
                        depth as nat,
                    ) == Ok::<Seq<char>, CompileFailureView>(res@),
                    reached == res@,
                    param@ == slots_values(
                        scope,
                        tv,
                        prefix,
                        ranges@,
                        idx as int,
                        old(param)@,
                        old(res)@,
                        depth as nat,
                    ),
                decreases range.last - value,
            {
                let ghost before = param@;
                let ghost text_before = res@;
                param[idx] = value;
                let ghost assigned = param@;
                assert(assigned == before.update(idx as int, value));
                match MmgxModule::recursive_impl(
                    res,
                    template,
                    parent,
                    prefix_name,
                    prefix,
                    external,
                    ranges,
                    param,
                    idx + 1,
                    depth,
                ) {
                    Ok(()) => {},
                    Err(failure) => {
                        assert(values_text(
                            scope,
                            tv,
                            prefix,
                            ranges@,
                            idx as int,
                            value as int,
                            before,
                            text_before,
                            depth as nat,
                        ) == slots_text(
                            scope,
                            tv,
                            prefix,
                            ranges@,
                            idx + 1,
                            assigned,
                            text_before,
                            depth as nat,
                        ));
                        return Err(failure);
                    },
                }
                proof {
                    lemma_expand_values_frame(
                        scope,
                        tv,
                        prefix,
                        ranges@,
                        idx as int,
                        value + 1,
                        before,
                        param@,
                        res@,
                        depth as nat,
                    );
                    lemma_values_text_frame(
                        scope,
                        tv,
                        prefix,
                        ranges@,
                        idx as int,
                        value + 1,
                        before,
                        param@,
                        res@,
                        depth as nat,
                    );
                    assert(values_values(
                        scope,
                        tv,
                        prefix,
                        ranges@,
                        idx as int,
                        value as int,
                        before,
                        text_before,
                        depth as nat,
                    ) == values_values(
                        scope,
                        tv,
                        prefix,
                        ranges@,
                        idx as int,
                        value + 1,
                        param@,
                        res@,
                        depth as nat,
                    ));
                }
                if value == range.last {
                    break;
                }
                value += 1;
            }
            Ok(())
        }
    }

    /// Expands this module: compiles its statements in order, each followed
    /// by a line break.  `modules` holds the modules of all files.
    pub fn internal_compile(&self, modules: &Vec<Rc<MmgxModule>>) -> (r: Result<
        String,
        CompileFailure,
    >)
        ensures
            rendered(r) == render_module(self.deep_view(), modules.deep_view()),
    {
        let ghost module = self.deep_view();
        let ghost registry = modules.deep_view();
        let mut res = String::new();
        let mut externs: Vec<&Rc<MmgxModule>> = Vec::new();
        let mut templates: Vec<&Template> = Vec::new();
        proof {
            assert(externs.deep_view() =~= Seq::<ModuleView>::empty());
            assert(templates.deep_view() =~= Seq::<TemplateView>::empty());
        }
        let mut i: usize = 0;
        while i < self.body.len()
            invariant
                i <= self.body.len(),
                module == self.deep_view(),
                registry == modules.deep_view(),
                compile_statements(
                    module,
                    registry,
                    i as int,
                    Progress {
                        text: res@,
                        externals: externs.deep_view(),
                        templates: templates.deep_view(),
                    },
                ) == render_module(module, registry),
            decreases self.body.len() - i,
        {
            assert(module.body[i as int] == self.body@[i as int].deep_view());
            let ghost state = Progress {
                text: res@,
                externals: externs.deep_view(),
                templates: templates.deep_view(),
            };
            match &self.body[i] {
                Statement::Command(Command::Use(name)) => {
                    match lookup_registered(modules, name) {
                        Some(m) => {
                            let ghost before = externs.deep_view();
                            externs.push(&modules[m]);
                            proof {
                                assert(registry[m as int] == modules@[m as int].deep_view());
                                assert(externs.deep_view() =~= before.push(registry[m as int]));
                            }
                        },
                        None => {
                            return Err(
                                CompileFailure::of(CompileErrorKind::ModuleNotFound(name.clone())),
                            );
                        },
                    }
                },
                Statement::Command(Command::Impl(cmd)) => {
                    let t = match lookup_template(&templates, &cmd.template) {
                        Some(t) => t,
                        None => {
                            return Err(
                                CompileFailure::of(
                                    CompileErrorKind::TemplateNotFound(cmd.template.clone()),
                                ),
                            );
                        },
                    };
                    let template: &Template = templates[t];
                    assert(state.templates[t as int] == template.deep_view());
                    let imp_len = cmd.params.len();
                    let tem_len = count_params(&template.params);
                    if imp_len == tem_len {
                        let mut args: Vec<usize> = Vec::new();
                        while args.len() < imp_len
                            invariant
                                args.len() <= imp_len,
                                forall|j: int| 0 <= j < args.len() ==> args@[j] == 0,
                            decreases imp_len - args.len(),
                        {
                            args.push(0);
                        }
                        assert(args@ =~= Seq::new(tem_len as nat, |i: int| 0usize));
                        let depth = depth_limit(&externs);
                        match MmgxModule::recursive_impl(
                            &mut res,
                            template,
                            self,
                            &self.name,
                            true,
                            &externs,
                            &cmd.params,
                            &mut args,
                            0,
                            depth,
                        ) {
                            Ok(()) => {},
                            Err(failure) => {
                                return Err(failure);
                            },
                        }
                    } else {
                        return Err(
                            CompileFailure::of(
                                CompileErrorKind::TemplateParameterOutOfRange(imp_len, tem_len),
                            ),
                        );
                    }
                },
                Statement::Command(Command::Export(obj)) => {
                    let depth = depth_limit(&externs);
                    match obj.compile(self, &self.name, false, &externs, None, depth) {
                        Ok(text) => {
                            res.append(text.as_str());
                        },
                        Err(failure) => {
                            return Err(failure);
                        },
                    }
                },
                Statement::Object(obj) => {
                    let depth = depth_limit(&externs);
                    match obj.compile(self, &self.name, true, &externs, None, depth) {
                        Ok(text) => {
                            res.append(text.as_str());
                        },
                        Err(failure) => {
                            return Err(failure);
                        },
                    }
                },
                Statement::Template(template) => {
                    let ghost before = templates.deep_view();
                    templates.push(template);
                    proof {
                        assert(templates.deep_view() =~= before.push(template.deep_view()));
                    }
                },
                Statement::Comment(text) => {
                    res.append(text.as_str());
                },
            }
            res.append("\n");
            i += 1;
        }
        Ok(res)
    }

    /// Expands this module as `internal_compile` does, and adds the module's
    /// name to the context of a failure.
    pub fn compile(&self, modules: &Vec<Rc<MmgxModule>>) -> (r: Result<String, CompileFailure>)
        ensures
            rendered(r) == compile_module(self.deep_view(), modules.deep_view()),
    {
        match self.internal_compile(modules) {
            Ok(text) => Ok(text),
            Err(failure) => Err(failure.within(&self.name)),
        }
    }
}

} // verus!
