use mmgx::ast::{
    BodyStatement, Command, CommandImpl, External, ImplRange, MmgxModule, Object, Section,
    Statement, Template, TemplateCall, TemplateParameter,
};
use mmgx::error::{MmgxErrorKind, ParseError, ParseErrorKind};
use mmgx::parse::module::{parse_source, parse_x_file};
use mmgx::token::CodeToken;
use std::rc::Rc;

fn s(text: &str) -> String {
    text.to_string()
}

fn expand(text: &str) -> BodyStatement {
    BodyStatement::Expand(s(text))
}

fn module_body(source: &str) -> Vec<Statement> {
    let sections = parse_source(source).expect("parses");
    assert_eq!(sections.len(), 1);
    match &sections[0] {
        Section::MmgxModule(module) => module.body.clone(),
        other => panic!("no module: {:?}", other),
    }
}

fn parse_failure(source: &str) -> ParseError {
    match parse_source(source) {
        Ok(sections) => panic!("parsed to {:?}", sections),
        Err(e) => e,
    }
}

#[test]
fn sections_alternate_between_source_and_modules() {
    let sections = parse_source("int x;\n@M {\nA 1\n}\nint y;").expect("parses");
    assert_eq!(
        sections,
        vec![
            Section::CSource(s("int x;\n")),
            Section::MmgxModule(Rc::new(MmgxModule {
                name: s("M"),
                body: vec![Statement::Object(Object { name: s("A"), body: vec![expand(" 1")] })],
                line: 1,
            })),
            Section::CSource(s("\nint y;")),
        ]
    );
}

#[test]
fn text_without_blocks_is_one_section() {
    assert_eq!(
        parse_source("a + \"b\" // c\n").expect("parses"),
        vec![Section::CSource(s("a + \"b\" // c\n"))]
    );
    assert_eq!(parse_source("").expect("parses"), vec![]);
}

#[test]
fn module_name_may_be_an_identifier() {
    let sections = parse_source("@my_mod{}").expect("parses");
    assert_eq!(
        sections,
        vec![Section::MmgxModule(Rc::new(MmgxModule { name: s("my_mod"), body: vec![], line: 0 }))]
    );
}

#[test]
fn plain_object_body_is_literal_text() {
    assert_eq!(
        module_body("@M {\nFOO 1+2\n}"),
        vec![Statement::Object(Object { name: s("FOO"), body: vec![expand(" 1+2")] })]
    );
}

#[test]
fn names_in_a_body_become_dependencies() {
    assert_eq!(
        module_body("@M {\nFOO (A + 1)\n}"),
        vec![Statement::Object(Object {
            name: s("FOO"),
            body: vec![
                expand(" ("),
                BodyStatement::OptDependency(s("A")),
                expand(" + 1)"),
            ],
        })]
    );
}

#[test]
fn identifier_with_underscore_stays_literal() {
    assert_eq!(
        module_body("@M {\nFOO a_b c\n}"),
        vec![Statement::Object(Object {
            name: s("FOO"),
            body: vec![expand(" a_b "), BodyStatement::OptDependency(s("c")), expand("")],
        })]
    );
}

#[test]
fn template_parameters_and_repetitions() {
    assert_eq!(
        module_body("@M {\nT<a,b,a> a+b\n}"),
        vec![Statement::Template(Template {
            params: vec![
                TemplateParameter::Param(s("a")),
                TemplateParameter::Param(s("b")),
                TemplateParameter::Reference(0),
            ],
            obj: Object {
                name: s("T"),
                body: vec![
                    expand(" "),
                    BodyStatement::Parameter(0),
                    expand("+"),
                    BodyStatement::Parameter(1),
                    expand(""),
                ],
            },
        })]
    );
}

#[test]
fn parameter_fragments_hold_value_slots() {
    assert_eq!(
        module_body("@M {\nT<a,a,b> b a\n}"),
        vec![Statement::Template(Template {
            params: vec![
                TemplateParameter::Param(s("a")),
                TemplateParameter::Reference(0),
                TemplateParameter::Param(s("b")),
            ],
            obj: Object {
                name: s("T"),
                body: vec![
                    expand(" "),
                    BodyStatement::Parameter(1),
                    expand(" "),
                    BodyStatement::Parameter(0),
                    expand(""),
                ],
            },
        })]
    );
}

#[test]
fn macro_arguments_are_fed_back_into_the_body() {
    assert_eq!(
        module_body("@M {\nF(a,b) a*b\n}"),
        vec![Statement::Object(Object {
            name: s("F"),
            body: vec![
                expand("("),
                expand("a, b)"),
                expand(" "),
                BodyStatement::OptDependency(s("a")),
                expand("*"),
                BodyStatement::OptDependency(s("b")),
                expand(""),
            ],
        })]
    );
}

#[test]
fn template_with_macro_arguments() {
    assert_eq!(
        module_body("@M {\nT<x>(n) U<x,n>\n}"),
        vec![Statement::Template(Template {
            params: vec![TemplateParameter::Param(s("x"))],
            obj: Object {
                name: s("T"),
                body: vec![
                    expand("("),
                    expand("n)"),
                    expand(" "),
                    BodyStatement::TemplateCall(TemplateCall {
                        name: s("U"),
                        args: vec![s("x"), s("n")],
                    }),
                    expand(""),
                ],
            },
        })]
    );
}

#[test]
fn references_into_other_modules() {
    assert_eq!(
        module_body("@M {\nFOO B.X + my_mod::Y\n}"),
        vec![Statement::Object(Object {
            name: s("FOO"),
            body: vec![
                expand(" "),
                BodyStatement::External(External { module: s("B"), object: s("X"), implement: true }),
                expand(" + my_mod::"),
                BodyStatement::OptDependency(s("Y")),
                expand(""),
            ],
        })]
    );
}

#[test]
fn scope_reference_is_direct() {
    assert_eq!(
        module_body("@M {\nFOO B::X\n}"),
        vec![Statement::Object(Object {
            name: s("FOO"),
            body: vec![
                expand(" "),
                BodyStatement::External(External {
                    module: s("B"),
                    object: s("X"),
                    implement: false,
                }),
                expand(""),
            ],
        })]
    );
}

#[test]
fn template_call_with_unknown_argument_is_a_dependency() {
    assert_eq!(
        module_body("@M {\nT<a> U<b>\n}"),
        vec![Statement::Template(Template {
            params: vec![TemplateParameter::Param(s("a"))],
            obj: Object {
                name: s("T"),
                body: vec![
                    expand(" "),
                    BodyStatement::OptDependency(s("U")),
                    expand("<"),
                    BodyStatement::OptDependency(s("b")),
                    expand(">"),
                ],
            },
        })]
    );
}

#[test]
fn commands() {
    assert_eq!(
        module_body("@M {\n@use Other\n@export E 1\n@impl T<1..2, 30..40>\n}"),
        vec![
            Statement::Command(Command::Use(s("Other"))),
            Statement::Command(Command::Export(Object { name: s("E"), body: vec![expand(" 1")] })),
            Statement::Command(Command::Impl(CommandImpl {
                template: s("T"),
                params: vec![ImplRange { first: 1, last: 2 }, ImplRange { first: 30, last: 40 }],
            })),
        ]
    );
}

#[test]
fn comments_are_statements() {
    assert_eq!(
        module_body("@M {\n  // note\n}"),
        vec![Statement::Comment(s("// note"))]
    );
}

#[test]
fn declaration_without_body_leaves_the_next_line_alone() {
    assert_eq!(
        module_body("@M {\nFOO\nBAR 1\n}"),
        vec![
            Statement::Object(Object { name: s("FOO"), body: vec![expand("")] }),
            Statement::Object(Object { name: s("BAR"), body: vec![expand(" 1")] }),
        ]
    );
}

#[test]
fn body_may_end_with_the_text() {
    let e = parse_failure("@M {\nFOO 1");
    assert_eq!(
        e.kind,
        ParseErrorKind::UnexpectedEOF(vec![
            CodeToken::Name,
            CodeToken::Modifier,
            CodeToken::CurleyClose
        ])
    );
}

#[test]
fn unexpected_token_in_a_module_body() {
    let e = parse_failure("@M {\n  $\n}");
    assert_eq!(
        e,
        ParseError {
            line: 1,
            prefix: s("  "),
            token: s("$"),
            kind: ParseErrorKind::UnexpectedToken {
                got: CodeToken::Unknown,
                expected: vec![CodeToken::Name, CodeToken::Modifier, CodeToken::CurleyClose],
            },
        }
    );
}

#[test]
fn unknown_command() {
    let e = parse_failure("@M {\n\t@foo x\n}");
    assert_eq!(
        e,
        ParseError {
            line: 1,
            prefix: s("\t@"),
            token: s("foo"),
            kind: ParseErrorKind::UnknownCommand(s("foo")),
        }
    );
}

#[test]
fn export_rejects_templates() {
    let e = parse_failure("@M {\n@export T<a> a\n}");
    assert_eq!(
        e,
        ParseError {
            line: 1,
            prefix: s("@export "),
            token: s("T<a> a\n"),
            kind: ParseErrorKind::WrongArgument {
                function: s("@export"),
                got: s("Template(Template { params: [Param(\"a\")], obj: Object { name: \"T\", body: [Expand(\" \"), Parameter(0), Expand(\"\")] } })"),
                expected: vec![s("Object")],
            },
        }
    );
}

#[test]
fn use_needs_a_name() {
    let e = parse_failure("@M {\n@use 5\n}");
    assert_eq!(
        e.kind,
        ParseErrorKind::UnexpectedToken {
            got: CodeToken::Number,
            expected: vec![CodeToken::Identifier, CodeToken::Name],
        }
    );
    assert_eq!(e.prefix, "@use ");
    assert_eq!(e.token, "5");
}

#[test]
fn impl_needs_ranges() {
    let e = parse_failure("@M {\n@impl T<1..x>\n}");
    assert_eq!(
        e,
        ParseError {
            line: 1,
            prefix: s("@impl T<1..x"),
            token: s(">"),
            kind: ParseErrorKind::UnexpectedToken {
                got: CodeToken::Name,
                expected: vec![CodeToken::Number, CodeToken::Number],
            },
        }
    );
}

#[test]
fn impl_needs_a_template_name_and_brackets() {
    let e = parse_failure("@M {\n@impl <1..2>\n}");
    assert_eq!(
        e.kind,
        ParseErrorKind::UnexpectedToken { got: CodeToken::DiamondOpen, expected: vec![CodeToken::Name] }
    );
    let e = parse_failure("@M {\n@impl T 1..2\n}");
    assert_eq!(
        e.kind,
        ParseErrorKind::UnexpectedToken {
            got: CodeToken::Whitespace,
            expected: vec![CodeToken::DiamondOpen],
        }
    );
}

#[test]
fn impl_ends_with_the_line() {
    let e = parse_failure("@M {\n@impl T<1..2> \n}");
    assert_eq!(
        e.kind,
        ParseErrorKind::UnexpectedToken { got: CodeToken::Whitespace, expected: vec![CodeToken::Name] }
    );
    let e = parse_failure("@M {\n@impl T<1..2>");
    assert_eq!(e.kind, ParseErrorKind::UnexpectedEOF(vec![CodeToken::Name]));
}

#[test]
fn impl_bound_must_fit_the_machine() {
    let e = parse_failure("@M {\n@impl T<1..99999999999999999999999999>\n}");
    assert_eq!(
        e,
        ParseError {
            line: 1,
            prefix: s("@impl T<1..99999999999999999999999999"),
            token: s(">"),
            kind: ParseErrorKind::WrongArgument {
                function: s("@impl"),
                got: s("99999999999999999999999999"),
                expected: vec![s("Number")],
            },
        }
    );
}

#[test]
fn impl_bound_must_not_be_missing() {
    let e = parse_failure("@M {\n@impl T<1..>\n}");
    assert_eq!(
        e.kind,
        ParseErrorKind::WrongArgument {
            function: s("@impl"),
            got: s(""),
            expected: vec![s("Number")],
        }
    );
}

#[test]
fn template_parameter_must_be_a_name() {
    let e = parse_failure("@M {\nT<1> x\n}");
    assert_eq!(
        e,
        ParseError {
            line: 1,
            prefix: s("T<1"),
            token: s(">"),
            kind: ParseErrorKind::UnexpectedToken {
                got: CodeToken::Number,
                expected: vec![CodeToken::Name, CodeToken::Name],
            },
        }
    );
}

#[test]
fn macro_argument_must_be_a_name_or_dots() {
    let e = parse_failure("@M {\nF(1) x\n}");
    assert_eq!(
        e.kind,
        ParseErrorKind::UnexpectedToken {
            got: CodeToken::Number,
            expected: vec![CodeToken::Name, CodeToken::VaArgs, CodeToken::Name, CodeToken::VaArgs],
        }
    );
}

#[test]
fn module_needs_a_name_and_a_brace() {
    let e = parse_failure("@ {}");
    assert_eq!(
        e.kind,
        ParseErrorKind::UnexpectedToken {
            got: CodeToken::CurlyOpen,
            expected: vec![CodeToken::Identifier],
        }
    );
    let e = parse_failure("@M x");
    assert_eq!(
        e.kind,
        ParseErrorKind::UnexpectedToken { got: CodeToken::Name, expected: vec![CodeToken::CurlyOpen] }
    );
    let e = parse_failure("@");
    assert_eq!(e.kind, ParseErrorKind::UnexpectedEOF(vec![CodeToken::Identifier]));
}

#[test]
fn line_break_is_reported_on_the_line_it_ends() {
    let e = parse_failure("x\n@M\n{");
    assert_eq!(
        e,
        ParseError {
            line: 1,
            prefix: s("@M"),
            token: s("\n"),
            kind: ParseErrorKind::UnexpectedToken {
                got: CodeToken::NewLine,
                expected: vec![CodeToken::CurlyOpen],
            },
        }
    );
}

#[test]
fn parse_x_file_attaches_the_path() {
    let e = parse_x_file("dir/in.mmgx", "@M {\n$\n}").expect_err("fails");
    assert_eq!(e.path, "dir/in.mmgx");
    assert!(matches!(e.error, MmgxErrorKind::ParseError(_)));
    let sections = parse_x_file("dir/in.mmgx", "x").expect("parses");
    assert_eq!(sections, vec![Section::CSource(s("x"))]);
}

#[test]
fn module_line_is_the_line_it_starts_on() {
    let sections = parse_source("\n\n@M {\n\n}\n").expect("parses");
    match &sections[1] {
        Section::MmgxModule(module) => assert_eq!(module.line, 2),
        other => panic!("no module: {:?}", other),
    }
}
