//! How values read inside diagnostics: names of token kinds, quoted texts,
//! lists in brackets, and a template as `Template { params: .., obj: .. }`.

use crate::ast::{
    BodyStatement, BodyStatementView, External, ExternalView, Object, ObjectView, Template,
    TemplateCall, TemplateCallView, TemplateParameter, TemplateParameterView, TemplateView,
};
use crate::text::{append_joined, decimal, decimal_string, joined};
use crate::token::CodeToken;
use vstd::prelude::*;
use vstd::string::*;

verus! {

/// The text `s` in quotes, with the escapes of Rust's `Debug` for `str`.
pub uninterp spec fn debug_text(s: Seq<char>) -> Seq<char>;

/// Quotes and escapes `s`.
///
/// Trusted: formats `s` with `{:?}`, that is with `Debug` for `str`, which
/// writes the text between double quotes and escapes what would not print.
/// The result depends on the characters of `s` alone.
#[verifier::external_body]
pub(crate) fn debug_string(s: &str) -> (r: String)
    ensures
        r@ == debug_text(s@),
{
    format!("{:?}", s)
}

/// The name of a token kind.
pub open spec fn token_name(kind: CodeToken) -> Seq<char> {
    match kind {
        CodeToken::Name => "Name"@,
        CodeToken::Identifier => "Identifier"@,
        CodeToken::String => "String"@,
        CodeToken::Comment => "Comment"@,
        CodeToken::Number => "Number"@,
        CodeToken::DiamondOpen => "DiamondOpen"@,
        CodeToken::DiamondClose => "DiamondClose"@,
        CodeToken::ParenOpen => "ParenOpen"@,
        CodeToken::ParenClose => "ParenClose"@,
        CodeToken::CurlyOpen => "CurlyOpen"@,
        CodeToken::CurleyClose => "CurleyClose"@,
        CodeToken::Modifier => "Modifier"@,
        CodeToken::VaArgs => "VaArgs"@,
        CodeToken::Range => "Range"@,
        CodeToken::Dot => "Dot"@,
        CodeToken::ScopeResolution => "ScopeResolution"@,
        CodeToken::NewLine => "NewLine"@,
        CodeToken::Comma => "Comma"@,
        CodeToken::Whitespace => "Whitespace"@,
        CodeToken::Unknown => "Unknown"@,
    }
}

/// The texts of `items` in brackets, separated by a comma and a space.
pub open spec fn bracketed(items: Seq<Seq<char>>) -> Seq<char> {
    "["@ + joined(items, ", "@) + "]"@
}

/// A list of token kinds: their names in brackets.
pub open spec fn debug_tokens(kinds: Seq<CodeToken>) -> Seq<char> {
    bracketed(Seq::new(kinds.len(), |i: int| token_name(kinds[i])))
}

/// A list of texts: each quoted, in brackets.
pub open spec fn debug_texts(texts: Seq<Seq<char>>) -> Seq<char> {
    bracketed(Seq::new(texts.len(), |i: int| debug_text(texts[i])))
}

/// `true` or `false`.
pub open spec fn debug_bool(b: bool) -> Seq<char> {
    if b {
        "true"@
    } else {
        "false"@
    }
}

/// A reference, as `External { module: .., object: .., implement: .. }`.
pub open spec fn debug_external(ext: ExternalView) -> Seq<char> {
    "External { module: "@ + debug_text(ext.module) + ", object: "@ + debug_text(ext.object)
        + ", implement: "@ + debug_bool(ext.implement) + " }"@
}

/// A template call, as `TemplateCall { name: .., args: [..] }`.
pub open spec fn debug_call(call: TemplateCallView) -> Seq<char> {
    "TemplateCall { name: "@ + debug_text(call.name) + ", args: "@ + debug_texts(call.args)
        + " }"@
}

/// A body fragment: the name of its kind and its content in parentheses.
pub open spec fn debug_fragment(stmt: BodyStatementView) -> Seq<char> {
    match stmt {
        BodyStatementView::Expand(text) => "Expand("@ + debug_text(text) + ")"@,
        BodyStatementView::Parameter(index) => "Parameter("@ + decimal(index as nat) + ")"@,
        BodyStatementView::OptDependency(name) => "OptDependency("@ + debug_text(name) + ")"@,
        BodyStatementView::External(ext) => "External("@ + debug_external(ext) + ")"@,
        BodyStatementView::TemplateCall(call) => "TemplateCall("@ + debug_call(call) + ")"@,
    }
}

/// An object, as `Object { name: .., body: [..] }`.
pub open spec fn debug_object(obj: ObjectView) -> Seq<char> {
    "Object { name: "@ + debug_text(obj.name) + ", body: "@ + bracketed(
        Seq::new(obj.body.len(), |i: int| debug_fragment(obj.body[i])),
    ) + " }"@
}

/// A parameter entry, as `Param(..)` or `Reference(..)`.
pub open spec fn debug_parameter(param: TemplateParameterView) -> Seq<char> {
    match param {
        TemplateParameterView::Param(name) => "Param("@ + debug_text(name) + ")"@,
        TemplateParameterView::Reference(index) => "Reference("@ + decimal(index as nat) + ")"@,
    }
}

/// A template, as `Template { params: [..], obj: .. }`.
pub open spec fn debug_template(template: TemplateView) -> Seq<char> {
    "Template { params: "@ + bracketed(
        Seq::new(template.params.len(), |i: int| debug_parameter(template.params[i])),
    ) + ", obj: "@ + debug_object(template.obj) + " }"@
}

/// The name of a token kind.
pub fn token_name_string(kind: CodeToken) -> (r: String)
    ensures
        r@ == token_name(kind),
{
    let name = match kind {
        CodeToken::Name => "Name",
        CodeToken::Identifier => "Identifier",
        CodeToken::String => "String",
        CodeToken::Comment => "Comment",
        CodeToken::Number => "Number",
        CodeToken::DiamondOpen => "DiamondOpen",
        CodeToken::DiamondClose => "DiamondClose",
        CodeToken::ParenOpen => "ParenOpen",
        CodeToken::ParenClose => "ParenClose",
        CodeToken::CurlyOpen => "CurlyOpen",
        CodeToken::CurleyClose => "CurleyClose",
        CodeToken::Modifier => "Modifier",
        CodeToken::VaArgs => "VaArgs",
        CodeToken::Range => "Range",
        CodeToken::Dot => "Dot",
        CodeToken::ScopeResolution => "ScopeResolution",
        CodeToken::NewLine => "NewLine",
        CodeToken::Comma => "Comma",
        CodeToken::Whitespace => "Whitespace",
        CodeToken::Unknown => "Unknown",
    };
    String::from_str(name)
}

/// Writes `items` in brackets.
fn bracketed_string(items: &Vec<String>) -> (r: String)
    ensures
        r@ == bracketed(items.deep_view()),
{
    let mut inner = String::new();
    append_joined(&mut inner, items, ", ");
    let mut r = String::from_str("[");
    r.append(inner.as_str());
    r.append("]");
    r
}

/// Writes a list of token kinds.
pub fn debug_tokens_string(kinds: &Vec<CodeToken>) -> (r: String)
    ensures
        r@ == debug_tokens(kinds@),
{
    let mut items: Vec<String> = Vec::new();
    let mut i: usize = 0;
    while i < kinds.len()
        invariant
            i <= kinds.len(),
            items.len() == i,
            forall|j: int| 0 <= j < i ==> #[trigger] items@[j]@ == token_name(kinds@[j]),
        decreases kinds.len() - i,
    {
        items.push(token_name_string(kinds[i]));
        i += 1;
    }
    assert(items.deep_view() =~= Seq::new(kinds@.len(), |i: int| token_name(kinds@[i])));
    bracketed_string(&items)
}

/// Writes a list of texts, each quoted.
pub fn debug_texts_string(texts: &Vec<String>) -> (r: String)
    ensures
        r@ == debug_texts(texts.deep_view()),
{
    let mut items: Vec<String> = Vec::new();
    let mut i: usize = 0;
    while i < texts.len()
        invariant
            i <= texts.len(),
            items.len() == i,
            forall|j: int| 0 <= j < i ==> #[trigger] items@[j]@ == debug_text(texts@[j]@),
        decreases texts.len() - i,
    {
        items.push(debug_string(texts[i].as_str()));
        i += 1;
    }
    assert(items.deep_view() =~= Seq::new(
        texts.deep_view().len(),
        |i: int| debug_text(texts.deep_view()[i]),
    ));
    bracketed_string(&items)
}

fn debug_external_string(ext: &External) -> (r: String)
    ensures
        r@ == debug_external(ext.deep_view()),
{
    let mut r = String::from_str("External { module: ");
    r.append(debug_string(ext.module.as_str()).as_str());
    r.append(", object: ");
    r.append(debug_string(ext.object.as_str()).as_str());
    r.append(", implement: ");
    if ext.implement {
        r.append("true");
    } else {
        r.append("false");
    }
    r.append(" }");
    r
}

fn debug_call_string(call: &TemplateCall) -> (r: String)
    ensures
        r@ == debug_call(call.deep_view()),
{
    let mut r = String::from_str("TemplateCall { name: ");
    r.append(debug_string(call.name.as_str()).as_str());
    r.append(", args: ");
    r.append(debug_texts_string(&call.args).as_str());
    r.append(" }");
    r
}

fn debug_fragment_string(stmt: &BodyStatement) -> (r: String)
    ensures
        r@ == debug_fragment(stmt.deep_view()),
{
    let mut r = String::new();
    match stmt {
        BodyStatement::Expand(text) => {
            r.append("Expand(");
            r.append(debug_string(text.as_str()).as_str());
        },
        BodyStatement::Parameter(index) => {
            r.append("Parameter(");
            r.append(decimal_string(*index).as_str());
        },
        BodyStatement::OptDependency(name) => {
            r.append("OptDependency(");
            r.append(debug_string(name.as_str()).as_str());
        },
        BodyStatement::External(ext) => {
            r.append("External(");
            r.append(debug_external_string(ext).as_str());
        },
        BodyStatement::TemplateCall(call) => {
            r.append("TemplateCall(");
            r.append(debug_call_string(call).as_str());
        },
    }
    r.append(")");
    assert(r@ =~= debug_fragment(stmt.deep_view()));
    r
}

fn debug_object_string(obj: &Object) -> (r: String)
    ensures
        r@ == debug_object(obj.deep_view()),
{
    let mut items: Vec<String> = Vec::new();
    let mut i: usize = 0;
    while i < obj.body.len()
        invariant
            i <= obj.body.len(),
            items.len() == i,
            forall|j: int|
                0 <= j < i ==> #[trigger] items@[j]@ == debug_fragment(obj.body@[j].deep_view()),
        decreases obj.body.len() - i,
    {
        items.push(debug_fragment_string(&obj.body[i]));
        i += 1;
    }
    assert(items.deep_view() =~= Seq::new(
        obj.deep_view().body.len(),
        |i: int| debug_fragment(obj.deep_view().body[i]),
    ));
    let mut r = String::from_str("Object { name: ");
    r.append(debug_string(obj.name.as_str()).as_str());
    r.append(", body: ");
    r.append(bracketed_string(&items).as_str());
    r.append(" }");
    r
}

fn debug_parameter_string(param: &TemplateParameter) -> (r: String)
    ensures
        r@ == debug_parameter(param.deep_view()),
{
    let mut r = String::new();
    match param {
        TemplateParameter::Param(name) => {
            r.append("Param(");
            r.append(debug_string(name.as_str()).as_str());
        },
        TemplateParameter::Reference(index) => {
            r.append("Reference(");
            r.append(decimal_string(*index).as_str());
        },
    }
    r.append(")");
    assert(r@ =~= debug_parameter(param.deep_view()));
    r
}

/// Writes a template as it reads in a diagnostic.
pub fn debug_template_string(template: &Template) -> (r: String)
    ensures
        r@ == debug_template(template.deep_view()),
{
    let mut items: Vec<String> = Vec::new();
    let mut i: usize = 0;
    while i < template.params.len()
        invariant
            i <= template.params.len(),
            items.len() == i,
            forall|j: int|
                0 <= j < i ==> #[trigger] items@[j]@ == debug_parameter(
                    template.params@[j].deep_view(),
                ),
        decreases template.params.len() - i,
    {
        items.push(debug_parameter_string(&template.params[i]));
        i += 1;
    }
    assert(items.deep_view() =~= Seq::new(
        template.deep_view().params.len(),
        |i: int| debug_parameter(template.deep_view().params[i]),
    ));
    let mut r = String::from_str("Template { params: ");
    r.append(bracketed_string(&items).as_str());
    r.append(", obj: ");
    r.append(debug_object_string(&template.obj).as_str());
    r.append(" }");
    r
}

} // verus!
