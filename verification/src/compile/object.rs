//! Rendering one object: its `#define` line and the lines of the objects
//! that it inlines.

use crate::ast::{
    BodyStatement, BodyStatementView, Command, CommandView, External, MmgxModule, ModuleView,
    Object, ObjectView, Statement, StatementView, TemplateParameter, TemplateParameterView,
};
use crate::error::{CompileErrorKind, CompileErrorKindView, CompileFailure, CompileFailureView};
use crate::text::{decimal, decimal_string};
use std::rc::Rc;
use vstd::prelude::*;
use vstd::string::*;

verus! {

/// The generated symbol of `name` under `prefix`: `__<prefix>_<name>`, or
/// `<prefix>_<name>` where the symbol is not decorated.
pub open spec fn symbol(prefix: Seq<char>, name: Seq<char>, decorated: bool) -> Seq<char> {
    if decorated {
        "__"@ + prefix + "_"@ + name
    } else {
        prefix + "_"@ + name
    }
}

/// Whether `stmt` declares `name`, and if so whether its symbol is decorated:
/// templates and objects are, exported objects are not.
pub open spec fn declares(stmt: StatementView, name: Seq<char>) -> Option<bool> {
    match stmt {
        StatementView::Template(template) => if template.obj.name == name {
            Some(true)
        } else {
            None
        },
        StatementView::Object(obj) => if obj.name == name {
            Some(true)
        } else {
            None
        },
        StatementView::Command(CommandView::Export(obj)) => if obj.name == name {
            Some(false)
        } else {
            None
        },
        _ => None,
    }
}

/// What `name` stands for when the statements `body[from..]` are searched in
/// order: the symbol of the first declaration of `name`, or `name` itself.
pub open spec fn resolve_from(
    name: Seq<char>,
    body: Seq<StatementView>,
    prefix: Seq<char>,
    from: int,
) -> Seq<char>
    decreases body.len() - from,
{
    if from < 0 || from >= body.len() {
        name
    } else {
        match declares(body[from], name) {
            Some(decorated) => symbol(prefix, name, decorated),
            None => resolve_from(name, body, prefix, from + 1),
        }
    }
}

/// What `name` stands for inside a module with the statements `body`.
pub open spec fn resolve(name: Seq<char>, body: Seq<StatementView>, prefix: Seq<char>) -> Seq<
    char,
> {
    resolve_from(name, body, prefix, 0)
}

/// What an object is rendered in: the statements of the module being
/// compiled, the prefix of generated symbols, and the imported modules.
pub struct Scope {
    pub parent: Seq<StatementView>,
    pub prefix: Seq<char>,
    pub externals: Seq<ModuleView>,
}

/// The scope in which the objects of `parent` are rendered under the prefix
/// `prefix_name` once `external` are imported.
pub open spec fn scope_of(
    parent: &MmgxModule,
    prefix_name: &String,
    external: &Vec<&Rc<MmgxModule>>,
) -> Scope {
    Scope {
        parent: parent.deep_view().body,
        prefix: prefix_name@,
        externals: external.deep_view(),
    }
}

/// The values bound to a template's parameters, one per `Param` entry.
pub struct Binding {
    pub values: Seq<usize>,
    pub params: Seq<TemplateParameterView>,
}

/// The model of the optional binding that the rendering functions take.
pub open spec fn binding_view(
    params: Option<(&Vec<usize>, &Vec<TemplateParameter>)>,
) -> Option<Binding> {
    match params {
        Some((values, map)) => Some(Binding { values: values@, params: map.deep_view() }),
        None => None,
    }
}

/// The model of a rendering result.
pub open spec fn rendered(r: Result<String, CompileFailure>) -> Result<
    Seq<char>,
    CompileFailureView,
> {
    match r {
        Ok(text) => Ok(text@),
        Err(failure) => Err(failure.deep_view()),
    }
}

/// The index of the first module at or after `from` that is called `name`.
pub open spec fn find_module(modules: Seq<ModuleView>, name: Seq<char>, from: int) -> Option<int>
    decreases modules.len() - from,
{
    if from < 0 || from >= modules.len() {
        None
    } else if modules[from].name == name {
        Some(from)
    } else {
        find_module(modules, name, from + 1)
    }
}

/// The object that `stmt` offers to other modules under `name`: a plain or an
/// exported object of that name.
pub open spec fn offers(stmt: StatementView, name: Seq<char>) -> Option<ObjectView> {
    match stmt {
        StatementView::Object(obj) => if obj.name == name {
            Some(obj)
        } else {
            None
        },
        StatementView::Command(CommandView::Export(obj)) => if obj.name == name {
            Some(obj)
        } else {
            None
        },
        _ => None,
    }
}

/// The first object at or after `from` that `body` offers under `name`.
pub open spec fn find_target(body: Seq<StatementView>, name: Seq<char>, from: int) -> Option<
    ObjectView,
>
    decreases body.len() - from,
{
    if from < 0 || from >= body.len() {
        None
    } else {
        match offers(body[from], name) {
            Some(obj) => Some(obj),
            None => find_target(body, name, from + 1),
        }
    }
}

/// The value slot of the first `Param` entry at or after `from` that is
/// called `name`, where `slot` is the slot of the next `Param` entry.
pub open spec fn param_slot(
    params: Seq<TemplateParameterView>,
    name: Seq<char>,
    from: int,
    slot: int,
) -> Option<int>
    decreases params.len() - from,
{
    if from < 0 || from >= params.len() {
        None
    } else {
        match params[from] {
            TemplateParameterView::Param(param) => if param == name {
                Some(slot)
            } else {
                param_slot(params, name, from + 1, slot + 1)
            },
            TemplateParameterView::Reference(_) => param_slot(params, name, from + 1, slot),
        }
    }
}

/// What one argument of a template call adds to the called symbol: `_<value>`
/// where the argument names a parameter with a bound value, and
/// `##_##<argument>` otherwise.
pub open spec fn call_argument(binding: Option<Binding>, arg: Seq<char>) -> Seq<char> {
    match binding {
        Some(b) => match param_slot(b.params, arg, 0, 0) {
            Some(slot) => if slot < b.values.len() {
                "_"@ + decimal(b.values[slot] as nat)
            } else {
                "##_##"@ + arg
            },
            None => "##_##"@ + arg,
        },
        None => "##_##"@ + arg,
    }
}

/// `acc` followed by what the arguments `args[from..]` add.
pub open spec fn call_arguments(
    binding: Option<Binding>,
    args: Seq<Seq<char>>,
    from: int,
    acc: Seq<char>,
) -> Seq<char>
    decreases args.len() - from,
{
    if from < 0 || from >= args.len() {
        acc
    } else {
        call_arguments(binding, args, from + 1, acc + call_argument(binding, args[from]))
    }
}

/// `acc` followed by `_<value>` for every `Param` entry at or after `from`,
/// in order; `slot` is the slot of the next `Param` entry.  A `Reference`
/// entry adds nothing.  Fails where a `Param` entry has no value.
pub open spec fn instance_suffix(binding: Binding, from: int, slot: int, acc: Seq<char>) -> Result<
    Seq<char>,
    CompileErrorKindView,
>
    decreases binding.params.len() - from,
{
    if from < 0 || from >= binding.params.len() {
        Ok(acc)
    } else {
        match binding.params[from] {
            TemplateParameterView::Param(_) => if 0 <= slot < binding.values.len() {
                instance_suffix(
                    binding,
                    from + 1,
                    slot + 1,
                    acc + "_"@ + decimal(binding.values[slot] as nat),
                )
            } else {
                Err(
                    CompileErrorKindView::TemplateParameterOutOfRange(
                        slot as usize,
                        binding.values.len() as usize,
                    ),
                )
            },
            TemplateParameterView::Reference(_) => instance_suffix(binding, from + 1, slot, acc),
        }
    }
}

/// `#define <symbol>`, followed by the suffix of the instance where values
/// are bound.
pub open spec fn definition_head(
    scope: Scope,
    name: Seq<char>,
    decorated: bool,
    binding: Option<Binding>,
) -> Result<Seq<char>, CompileErrorKindView> {
    let head = "#define "@ + symbol(scope.prefix, name, decorated);
    match binding {
        Some(b) => instance_suffix(b, 0, 0, head),
        None => Ok(head),
    }
}

/// The prefix under which the target of an inlining reference is rendered:
/// `__<prefix>_<object>_IMPL_<module>`.
pub open spec fn implement_prefix(prefix: Seq<char>, object: Seq<char>, module: Seq<char>) -> Seq<
    char,
> {
    "__"@ + prefix + "_"@ + object + "_IMPL_"@ + module
}

/// The text `acc` after the fragments `body[from..]` of the object `name`
/// have been rendered onto it.
///
/// `depth` bounds how deep inlining references may nest.
pub open spec fn render_steps(
    scope: Scope,
    name: Seq<char>,
    body: Seq<BodyStatementView>,
    binding: Option<Binding>,
    from: int,
    acc: Seq<char>,
    depth: nat,
) -> Result<Seq<char>, CompileFailureView>
    decreases depth, body.len() - from,
{
    if from < 0 || from >= body.len() {
        Ok(acc)
    } else {
        match body[from] {
            BodyStatementView::Expand(text) => render_steps(
                scope,
                name,
                body,
                binding,
                from + 1,
                acc + text,
                depth,
            ),
            BodyStatementView::Parameter(index) => match binding {
                Some(b) => if index < b.values.len() {
                    render_steps(
                        scope,
                        name,
                        body,
                        binding,
                        from + 1,
                        acc + decimal(b.values[index as int] as nat),
                        depth,
                    )
                } else {
                    Err(
                        CompileFailureView::of(
                            CompileErrorKindView::TemplateParameterOutOfRange(
                                index,
                                b.values.len() as usize,
                            ),
                        ),
                    )
                },
                None => Err(CompileFailureView::of(CompileErrorKindView::NoTemplateParameters)),
            },
            BodyStatementView::OptDependency(dep) => render_steps(
                scope,
                name,
                body,
                binding,
                from + 1,
                acc + resolve(dep, scope.parent, scope.prefix),
                depth,
            ),
            BodyStatementView::TemplateCall(call) => render_steps(
                scope,
                name,
                body,
                binding,
                from + 1,
                call_arguments(
                    binding,
                    call.args,
                    0,
                    acc + resolve(call.name, scope.parent, scope.prefix),
                ),
                depth,
            ),
            BodyStatementView::External(ext) => match find_module(
                scope.externals,
                ext.module,
                0,
            ) {
                None => Err(
                    CompileFailureView::of(CompileErrorKindView::ModuleNotIncluded(ext.module)),
                ),
                Some(m) => match find_target(scope.externals[m].body, ext.object, 0) {
                    None => Err(
                        CompileFailureView::of(CompileErrorKindView::NoObjectInModule(ext)),
                    ),
                    Some(target) => if !ext.implement {
                        render_steps(
                            scope,
                            name,
                            body,
                            binding,
                            from + 1,
                            acc + "__"@ + ext.module + "_"@ + ext.object,
                            depth,
                        )
                    } else if depth == 0 {
                        Err(CompileFailureView::of(CompileErrorKindView::RecursiveImplement(ext)))
                    } else {
                        let inner = implement_prefix(scope.prefix, name, ext.module);
                        match compile_object(
                            Scope { prefix: inner, ..scope },
                            target,
                            false,
                            None,
                            (depth - 1) as nat,
                        ) {
                            Err(failure) => Err(failure),
                            Ok(definition) => render_steps(
                                scope,
                                name,
                                body,
                                binding,
                                from + 1,
                                definition + acc + inner,
                                depth,
                            ),
                        }
                    },
                },
            },
        }
    }
}

/// The `#define` line of `obj`, preceded by the lines of the objects that it
/// inlines.
pub open spec fn render_object(
    scope: Scope,
    obj: ObjectView,
    decorated: bool,
    binding: Option<Binding>,
    depth: nat,
) -> Result<Seq<char>, CompileFailureView>
    decreases depth, obj.body.len() + 1,
{
    match definition_head(scope, obj.name, decorated, binding) {
        Err(kind) => Err(CompileFailureView::of(kind)),
        Ok(head) => match render_steps(scope, obj.name, obj.body, binding, 0, head, depth) {
            Err(failure) => Err(failure),
            Ok(text) => Ok(text + "\n"@),
        },
    }
}

/// `render_object`, with the object's name added to the context of a failure.
pub open spec fn compile_object(
    scope: Scope,
    obj: ObjectView,
    decorated: bool,
    binding: Option<Binding>,
    depth: nat,
) -> Result<Seq<char>, CompileFailureView>
    decreases depth, obj.body.len() + 2,
{
    match render_object(scope, obj, decorated, binding, depth) {
        Ok(text) => Ok(text),
        Err(failure) => Err(failure.within(obj.name)),
    }
}

/// A copy of `ext`.
fn copy_external(ext: &External) -> (r: External)
    ensures
        r.deep_view() == ext.deep_view(),
{
    External { module: ext.module.clone(), object: ext.object.clone(), implement: ext.implement }
}

/// Finds the first module called `name`.
fn lookup_module(modules: &Vec<&Rc<MmgxModule>>, name: &String) -> (r: Option<usize>)
    ensures
        match r {
            Some(m) => find_module(modules.deep_view(), name@, 0) == Some(m as int)
                && m < modules.len(),
            None => find_module(modules.deep_view(), name@, 0) is None,
        },
{
    let mut i: usize = 0;
    while i < modules.len()
        invariant
            i <= modules.len(),
            find_module(modules.deep_view(), name@, 0) == find_module(
                modules.deep_view(),
                name@,
                i as int,
            ),
        decreases modules.len() - i,
    {
        assert(modules.deep_view()[i as int] == modules@[i as int].deep_view());
        if modules[i].name == *name {
            return Some(i);
        }
        i += 1;
    }
    None
}

/// Finds the first plain or exported object of `module` called `name`.
fn lookup_target<'a>(module: &'a MmgxModule, name: &String) -> (r: Option<&'a Object>)
    ensures
        r.deep_view() == find_target(module.deep_view().body, name@, 0),
{
    let ghost body = module.deep_view().body;
    let mut i: usize = 0;
    while i < module.body.len()
        invariant
            body == module.deep_view().body,
            i <= module.body.len(),
            find_target(body, name@, 0) == find_target(body, name@, i as int),
        decreases module.body.len() - i,
    {
        assert(body[i as int] == module.body@[i as int].deep_view());
        match &module.body[i] {
            Statement::Object(obj) => {
                if obj.name == *name {
                    return Some(obj);
                }
            },
            Statement::Command(Command::Export(obj)) => {
                if obj.name == *name {
                    return Some(obj);
                }
            },
            _ => {},
        }
        i += 1;
    }
    None
}

/// Finds the value slot of the parameter called `name`.
pub fn lookup_slot(params: &Vec<TemplateParameter>, name: &String) -> (r: Option<usize>)
    ensures
        match r {
            Some(slot) => param_slot(params.deep_view(), name@, 0, 0) == Some(slot as int),
            None => param_slot(params.deep_view(), name@, 0, 0) is None,
        },
{
    let mut i: usize = 0;
    let mut slot: usize = 0;
    while i < params.len()
        invariant
            slot <= i <= params.len(),
            param_slot(params.deep_view(), name@, 0, 0) == param_slot(
                params.deep_view(),
                name@,
                i as int,
                slot as int,
            ),
        decreases params.len() - i,
    {
        assert(params.deep_view()[i as int] == params@[i as int].deep_view());
        match &params[i] {
            TemplateParameter::Param(param) => {
                if *param == *name {
                    return Some(slot);
                }
                slot += 1;
            },
            TemplateParameter::Reference(_) => {},
        }
        i += 1;
    }
    None
}

/// Appends to `res` what the arguments of a template call add to the symbol.
fn append_call_arguments(
    res: &mut String,
    args: &Vec<String>,
    params: Option<(&Vec<usize>, &Vec<TemplateParameter>)>,
)
    ensures
        final(res)@ == call_arguments(binding_view(params), args.deep_view(), 0, old(res)@),
{
    let ghost binding = binding_view(params);
    let ghost all = args.deep_view();
    let mut i: usize = 0;
    while i < args.len()
        invariant
            i <= args.len(),
            binding == binding_view(params),
            all == args.deep_view(),
            call_arguments(binding, all, i as int, res@) == call_arguments(
                binding,
                all,
                0,
                old(res)@,
            ),
        decreases args.len() - i,
    {
        assert(all[i as int] == args@[i as int]@);
        let arg = &args[i];
        let mut piece = String::new();
        let mut bound = false;
        match params {
            Some((values, map)) => {
                match lookup_slot(map, arg) {
                    Some(slot) => {
                        if slot < values.len() {
                            piece.append("_");
                            piece.append(decimal_string(values[slot]).as_str());
                            bound = true;
                        }
                    },
                    None => {},
                }
            },
            None => {},
        }
        if !bound {
            piece.append("##_##");
            piece.append(arg.as_str());
        }
        proof {
            assert(piece@ =~= call_argument(binding, all[i as int]));
        }
        res.append(piece.as_str());
        i += 1;
    }
}

/// The text `head` with the suffix of a template instance after it.
fn with_instance_suffix(head: String, values: &Vec<usize>, map: &Vec<TemplateParameter>) -> (r:
    Result<String, CompileErrorKind>)
    ensures
        match instance_suffix(Binding { values: values@, params: map.deep_view() }, 0, 0, head@) {
            Ok(text) => r matches Ok(s) && s@ == text,
            Err(kind) => r matches Err(k) && k.deep_view() == kind,
        },
{
    let ghost binding = Binding { values: values@, params: map.deep_view() };
    let mut res = head;
    let mut i: usize = 0;
    let mut slot: usize = 0;
    while i < map.len()
        invariant
            slot <= i <= map.len(),
            binding == (Binding { values: values@, params: map.deep_view() }),
            instance_suffix(binding, i as int, slot as int, res@) == instance_suffix(
                binding,
                0,
                0,
                head@,
            ),
        decreases map.len() - i,
    {
        assert(binding.params[i as int] == map@[i as int].deep_view());
        match &map[i] {
            TemplateParameter::Param(_) => {
                if slot < values.len() {
                    res.append("_");
                    res.append(decimal_string(values[slot]).as_str());
                    slot += 1;
                } else {
                    return Err(CompileErrorKind::TemplateParameterOutOfRange(slot, values.len()));
                }
            },
            TemplateParameter::Reference(_) => {},
        }
        i += 1;
    }
    Ok(res)
}

impl Object {
    /// The name of the object.
    pub fn name(&self) -> (r: &String)
        ensures
            r@ == self.name@,
    {
        &self.name
    }

    /// The generated symbol of this object under `prefix_name`.
    pub fn get_name(&self, prefix_name: &String, prefix: bool) -> (r: String)
        ensures
            r@ == symbol(prefix_name@, self.name@, prefix),
    {
        let mut r = String::new();
        if prefix {
            r.append("__");
        }
        r.append(prefix_name.as_str());
        r.append("_");
        r.append(self.name.as_str());
        proof {
            assert(r@ =~= symbol(prefix_name@, self.name@, prefix));
        }
        r
    }

    /// Renders this object inside `parent`: its `#define` line, preceded by
    /// the lines of the objects that it inlines from `external`.
    ///
    /// `depth` is how deep inlining references may still nest.
    pub fn internal_compile(
        &self,
        parent: &MmgxModule,
        prefix_name: &String,
        prefix: bool,
        external: &Vec<&Rc<MmgxModule>>,
        params: Option<(&Vec<usize>, &Vec<TemplateParameter>)>,
        depth: usize,
    ) -> (r: Result<String, CompileFailure>)
        ensures
            rendered(r) == render_object(
                scope_of(parent, prefix_name, external),
                self.deep_view(),
                prefix,
                binding_view(params),
                depth as nat,
            ),
        decreases depth, self.body.len() + 1,
    {
        let ghost scope = scope_of(parent, prefix_name, external);
        let ghost binding = binding_view(params);
        let ghost body = self.deep_view().body;
        let mut res = String::new();
        res.append("#define ");
        res.append(self.get_name(prefix_name, prefix).as_str());
        match params {
            Some((values, map)) => {
                res = match with_instance_suffix(res, values, map) {
                    Ok(text) => text,
                    Err(kind) => {
                        return Err(CompileFailure::of(kind));
                    },
                };
            },
            None => {},
        }
        let ghost head = res@;
        assert(definition_head(scope, self.name@, prefix, binding) == Ok::<
            Seq<char>,
            CompileErrorKindView,
        >(head));
        let mut i: usize = 0;
        while i < self.body.len()
            invariant
                i <= self.body.len(),
                body == self.deep_view().body,
                binding == binding_view(params),
                scope == scope_of(parent, prefix_name, external),
                definition_head(scope, self.name@, prefix, binding) == Ok::<
                    Seq<char>,
                    CompileErrorKindView,
                >(head),
                render_steps(scope, self.name@, body, binding, i as int, res@, depth as nat)
                    == render_steps(scope, self.name@, body, binding, 0, head, depth as nat),
            decreases self.body.len() - i,
        {
            assert(body[i as int] == self.body@[i as int].deep_view());
            match &self.body[i] {
                BodyStatement::Expand(text) => {
                    res.append(text.as_str());
                },
                BodyStatement::Parameter(index) => {
                    match params {
                        Some((values, _)) => {
                            if *index < values.len() {
                                res.append(decimal_string(values[*index]).as_str());
                            } else {
                                return Err(
                                    CompileFailure::of(
                                        CompileErrorKind::TemplateParameterOutOfRange(
                                            *index,
                                            values.len(),
                                        ),
                                    ),
                                );
                            }
                        },
                        None => {
                            return Err(CompileFailure::of(CompileErrorKind::NoTemplateParameters));
                        },
                    }
                },
                BodyStatement::OptDependency(dep) => {
                    res.append(Object::resolve(dep, parent, prefix_name).as_str());
                },
                BodyStatement::TemplateCall(call) => {
                    res.append(Object::resolve(&call.name, parent, prefix_name).as_str());
                    append_call_arguments(&mut res, &call.args, params);
                },
                BodyStatement::External(ext) => {
                    let m = match lookup_module(external, &ext.module) {
                        Some(m) => m,
                        None => {
                            return Err(
                                CompileFailure::of(
                                    CompileErrorKind::ModuleNotIncluded(ext.module.clone()),
                                ),
                            );
                        },
                    };
                    assert(scope.externals[m as int] == external@[m as int].deep_view());
                    let target = match lookup_target(external[m], &ext.object) {
                        Some(target) => target,
                        None => {
                            return Err(
                                CompileFailure::of(
                                    CompileErrorKind::NoObjectInModule(copy_external(ext)),
                                ),
                            );
                        },
                    };
                    if !ext.implement {
                        res.append("__");
                        res.append(ext.module.as_str());
                        res.append("_");
                        res.append(ext.object.as_str());
                    } else if depth == 0 {
                        return Err(
                            CompileFailure::of(
                                CompileErrorKind::RecursiveImplement(copy_external(ext)),
                            ),
                        );
                    } else {
                        let mut inner = String::new();
                        inner.append("__");
                        inner.append(prefix_name.as_str());
                        inner.append("_");
                        inner.append(self.name.as_str());
                        inner.append("_IMPL_");
                        inner.append(ext.module.as_str());
                        assert(inner@ =~= implement_prefix(prefix_name@, self.name@, ext.module@));
                        let mut definition = match target.compile(
                            parent,
                            &inner,
                            false,
                            external,
                            None,
                            depth - 1,
                        ) {
                            Ok(definition) => definition,
                            Err(failure) => {
                                return Err(failure);
                            },
                        };
                        definition.append(res.as_str());
                        definition.append(inner.as_str());
                        res = definition;
                    }
                },
            }
            i += 1;
        }
        res.append("\n");
        Ok(res)
    }

    /// Renders this object as `internal_compile` does, and adds the object's
    /// name to the context of a failure.
    pub fn compile(
        &self,
        parent: &MmgxModule,
        prefix_name: &String,
        prefix: bool,
        external: &Vec<&Rc<MmgxModule>>,
        params: Option<(&Vec<usize>, &Vec<TemplateParameter>)>,
        depth: usize,
    ) -> (r: Result<String, CompileFailure>)
        ensures
            rendered(r) == compile_object(
                scope_of(parent, prefix_name, external),
                self.deep_view(),
                prefix,
                binding_view(params),
                depth as nat,
            ),
        decreases depth, self.body.len() + 2,
    {
        match self.internal_compile(parent, prefix_name, prefix, external, params, depth) {
            Ok(text) => Ok(text),
            Err(failure) => Err(failure.within(&self.name)),
        }
    }

    /// Replaces `name` by the symbol of its first declaration in `parent`, if
    /// there is one.
    pub fn resolve(name: &String, parent: &MmgxModule, prefix_name: &String) -> (r: String)
        ensures
            r@ == resolve(name@, parent.deep_view().body, prefix_name@),
    {
        let ghost body = parent.deep_view().body;
        let mut i: usize = 0;
        while i < parent.body.len()
            invariant
                body == parent.deep_view().body,
                i <= parent.body.len(),
                resolve(name@, body, prefix_name@) == resolve_from(
                    name@,
                    body,
                    prefix_name@,
                    i as int,
                ),
            decreases parent.body.len() - i,
        {
            assert(body[i as int] == parent.body@[i as int].deep_view());
            match &parent.body[i] {
                Statement::Template(template) => {
                    if template.obj.name == *name {
                        return template.obj.get_name(prefix_name, true);
                    }
                },
                Statement::Object(obj) => {
                    if obj.name == *name {
                        return obj.get_name(prefix_name, true);
                    }
                },
                Statement::Command(Command::Export(obj)) => {
                    if obj.name == *name {
                        return obj.get_name(prefix_name, false);
                    }
                },
                _ => {},
            }
            i += 1;
        }
        name.clone()
    }
}

} // verus!
