use mmgx::ast::{
    BodyStatement, Command, External, ImplRange, MmgxModule, Object, Section, Statement, Template,
    TemplateCall, TemplateParameter,
};
use mmgx::compile::{collect_modules, compile_section};
use mmgx::debug::{debug_template_string, debug_texts_string, debug_tokens_string, token_name_string};
use mmgx::error::{CompileErrorKind, CompileFailure};
use mmgx::lexer::{Lexer, LexerInfo};
use mmgx::parse::body::{parse_body, parse_mmgx_object_body, BodyToken};
use mmgx::parse::params::{parse_mmgx_parameters, parse_mmgx_parameters_body};
use mmgx::text::{decimal_string, parse_number, slice_string, to_chars};
use mmgx::token::CodeToken;
use std::rc::Rc;

fn s(text: &str) -> String {
    text.to_string()
}

fn object(name: &str, body: Vec<BodyStatement>) -> Object {
    Object { name: s(name), body }
}

fn module(name: &str, body: Vec<Statement>) -> MmgxModule {
    MmgxModule { name: s(name), body, line: 0 }
}

fn tok(kind: CodeToken, text: &str) -> BodyToken {
    BodyToken { kind: Some(kind), text: s(text) }
}

#[test]
fn decimal_strings() {
    assert_eq!(decimal_string(0), "0");
    assert_eq!(decimal_string(7), "7");
    assert_eq!(decimal_string(10), "10");
    assert_eq!(decimal_string(12345), "12345");
    assert_eq!(decimal_string(usize::MAX), usize::MAX.to_string());
}

#[test]
fn numbers_are_read_in_decimal() {
    assert_eq!(parse_number("0"), Some(0));
    assert_eq!(parse_number("007"), Some(7));
    assert_eq!(parse_number("4096"), Some(4096));
    assert_eq!(parse_number(&usize::MAX.to_string()), Some(usize::MAX));
    assert_eq!(parse_number(&format!("{}0", usize::MAX)), None);
    assert_eq!(parse_number("18446744073709551616000"), None);
    assert_eq!(parse_number(""), None);
    assert_eq!(parse_number("12a"), None);
    assert_eq!(parse_number("+1"), None);
}

#[test]
fn reading_a_written_number_gives_it_back() {
    for n in [0usize, 1, 9, 10, 99, 100, 65535, usize::MAX] {
        assert_eq!(parse_number(&decimal_string(n)), Some(n));
    }
}

#[test]
fn characters_and_slices() {
    let chars = to_chars("aé\tz");
    assert_eq!(chars, vec!['a', 'é', '\t', 'z']);
    assert_eq!(slice_string(&chars, 1, 3), "é\t");
    assert_eq!(slice_string(&chars, 2, 2), "");
}

#[test]
fn symbols() {
    let obj = object("FOO", vec![]);
    assert_eq!(obj.get_name(&s("Mod"), true), "__Mod_FOO");
    assert_eq!(obj.get_name(&s("Mod"), false), "Mod_FOO");
    assert_eq!(obj.name(), "FOO");
}

#[test]
fn resolve_scans_declarations_in_order() {
    let parent = module(
        "M",
        vec![
            Statement::Comment(s("// A")),
            Statement::Command(Command::Use(s("A"))),
            Statement::Template(Template { params: vec![], obj: object("T", vec![]) }),
            Statement::Command(Command::Export(object("A", vec![]))),
            Statement::Object(object("A", vec![])),
            Statement::Object(object("B", vec![])),
        ],
    );
    assert_eq!(Object::resolve(&s("A"), &parent, &s("P")), "P_A");
    assert_eq!(Object::resolve(&s("B"), &parent, &s("P")), "__P_B");
    assert_eq!(Object::resolve(&s("T"), &parent, &s("P")), "__P_T");
    assert_eq!(Object::resolve(&s("C"), &parent, &s("P")), "C");
}

#[test]
fn parameter_without_binding_fails() {
    let obj = object("O", vec![BodyStatement::Parameter(0)]);
    let parent = module("M", vec![]);
    let r = obj.compile(&parent, &s("M"), true, &vec![], None, 0);
    assert_eq!(
        r,
        Err(CompileFailure { context: vec![s("O")], kind: CompileErrorKind::NoTemplateParameters })
    );
    let r = obj.internal_compile(&parent, &s("M"), true, &vec![], None, 0);
    assert_eq!(
        r,
        Err(CompileFailure { context: vec![], kind: CompileErrorKind::NoTemplateParameters })
    );
}

#[test]
fn object_with_bound_values() {
    let obj = object(
        "T",
        vec![
            BodyStatement::Expand(s(" ")),
            BodyStatement::Parameter(1),
            BodyStatement::TemplateCall(TemplateCall {
                name: s("U"),
                args: vec![s("b"), s("a"), s("z")],
            }),
        ],
    );
    let parent = module(
        "M",
        vec![Statement::Template(Template { params: vec![], obj: object("U", vec![]) })],
    );
    let values = vec![4usize, 5];
    let params = vec![
        TemplateParameter::Param(s("a")),
        TemplateParameter::Reference(0),
        TemplateParameter::Param(s("b")),
    ];
    let r = obj.internal_compile(&parent, &s("M"), false, &vec![], Some((&values, &params)), 0);
    assert_eq!(r, Ok(s("#define M_T_4_5 5__M_U_5_4##_##z\n")));
}

#[test]
fn missing_value_for_a_parameter_fails() {
    let obj = object("T", vec![]);
    let parent = module("M", vec![]);
    let values = vec![4usize];
    let params = vec![TemplateParameter::Param(s("a")), TemplateParameter::Param(s("b"))];
    let r = obj.internal_compile(&parent, &s("M"), true, &vec![], Some((&values, &params)), 0);
    assert_eq!(
        r,
        Err(CompileFailure {
            context: vec![],
            kind: CompileErrorKind::TemplateParameterOutOfRange(1, 1),
        })
    );
}

#[test]
fn implement_needs_depth() {
    let target = Rc::new(module("B", vec![Statement::Object(object("X", vec![]))]));
    let externs = vec![&target];
    let obj = object(
        "O",
        vec![BodyStatement::External(External { module: s("B"), object: s("X"), implement: true })],
    );
    let parent = module("M", vec![]);
    assert_eq!(
        obj.internal_compile(&parent, &s("M"), true, &externs, None, 1),
        Ok(s("#define __M_O_IMPL_B_X\n#define __M_O__M_O_IMPL_B\n"))
    );
    assert_eq!(
        obj.internal_compile(&parent, &s("M"), true, &externs, None, 0),
        Err(CompileFailure {
            context: vec![],
            kind: CompileErrorKind::RecursiveImplement(External {
                module: s("B"),
                object: s("X"),
                implement: true,
            }),
        })
    );
}

#[test]
fn recursive_impl_appends_every_instance() {
    let template = Template {
        params: vec![TemplateParameter::Param(s("a")), TemplateParameter::Param(s("b"))],
        obj: object("T", vec![]),
    };
    let parent = module("M", vec![]);
    let ranges = vec![ImplRange { first: 1, last: 2 }, ImplRange { first: 8, last: 9 }];
    let mut res = s("// start\n");
    let mut param = vec![0usize, 0];
    let r = MmgxModule::recursive_impl(
        &mut res,
        &template,
        &parent,
        &s("M"),
        true,
        &vec![],
        &ranges,
        &mut param,
        0,
        0,
    );
    assert_eq!(r, Ok(()));
    assert_eq!(
        res,
        "// start\n#define __M_T_1_8\n#define __M_T_1_9\n#define __M_T_2_8\n#define __M_T_2_9\n"
    );
    assert_eq!(param, vec![2, 9]);
    let mut res = String::new();
    let mut param = vec![5usize, 0];
    let r = MmgxModule::recursive_impl(
        &mut res,
        &template,
        &parent,
        &s("M"),
        false,
        &vec![],
        &ranges,
        &mut param,
        1,
        0,
    );
    assert_eq!(r, Ok(()));
    assert_eq!(res, "#define M_T_5_8\n#define M_T_5_9\n");
    assert_eq!(param, vec![5, 9]);
}

#[test]
fn failed_instance_leaves_the_text_as_it_was() {
    let template = Template {
        params: vec![TemplateParameter::Param(s("a"))],
        obj: object(
            "T",
            vec![BodyStatement::External(External {
                module: s("Nowhere"),
                object: s("X"),
                implement: false,
            })],
        ),
    };
    let parent = module("M", vec![]);
    let ranges = vec![ImplRange { first: 1, last: 3 }];
    let mut res = s("// start\n");
    let mut param = vec![0usize];
    let r = MmgxModule::recursive_impl(
        &mut res, &template, &parent, &s("M"), true, &vec![], &ranges, &mut param, 0, 0,
    );
    assert_eq!(
        r,
        Err(CompileFailure {
            context: vec![s("T")],
            kind: CompileErrorKind::ModuleNotIncluded(s("Nowhere")),
        })
    );
    assert_eq!(res, "// start\n");
    assert_eq!(param, vec![1]);
}

#[test]
fn empty_range_stops_the_slots_after_it() {
    let template = Template {
        params: vec![
            TemplateParameter::Param(s("a")),
            TemplateParameter::Param(s("b")),
            TemplateParameter::Param(s("c")),
        ],
        obj: object("T", vec![]),
    };
    let parent = module("M", vec![]);
    let ranges = vec![
        ImplRange { first: 1, last: 2 },
        ImplRange { first: 5, last: 4 },
        ImplRange { first: 7, last: 8 },
    ];
    let mut res = s("x");
    let mut param = vec![0usize, 0, 0];
    let r = MmgxModule::recursive_impl(
        &mut res, &template, &parent, &s("M"), true, &vec![], &ranges, &mut param, 0, 0,
    );
    assert_eq!(r, Ok(()));
    assert_eq!(res, "x");
    assert_eq!(param, vec![2, 0, 0]);
}

#[test]
fn range_up_to_the_largest_number() {
    let template = Template {
        params: vec![TemplateParameter::Param(s("a"))],
        obj: object("T", vec![]),
    };
    let parent = module("M", vec![]);
    let ranges = vec![ImplRange { first: usize::MAX - 1, last: usize::MAX }];
    let mut res = String::new();
    let mut param = vec![0usize];
    let r = MmgxModule::recursive_impl(
        &mut res, &template, &parent, &s("M"), true, &vec![], &ranges, &mut param, 0, 0,
    );
    assert_eq!(r, Ok(()));
    assert_eq!(
        res,
        format!("#define __M_T_{}\n#define __M_T_{}\n", usize::MAX - 1, usize::MAX)
    );
}

#[test]
fn module_compiles_against_a_registry() {
    let b = Rc::new(module("B", vec![Statement::Object(object("X", vec![]))]));
    let a = module(
        "A",
        vec![
            Statement::Command(Command::Use(s("B"))),
            Statement::Object(object(
                "F",
                vec![BodyStatement::External(External {
                    module: s("B"),
                    object: s("X"),
                    implement: false,
                })],
            )),
        ],
    );
    let registry = vec![b];
    assert_eq!(a.internal_compile(&registry), Ok(s("\n#define __A_F__B_X\n\n")));
    assert_eq!(a.compile(&registry), Ok(s("\n#define __A_F__B_X\n\n")));
    assert_eq!(
        a.compile(&vec![]),
        Err(CompileFailure {
            context: vec![s("A")],
            kind: CompileErrorKind::ModuleNotFound(s("B")),
        })
    );
    assert_eq!(a.name(), "A");
}

#[test]
fn first_module_of_a_name_wins() {
    let first = Rc::new(module("B", vec![Statement::Object(object("X", vec![]))]));
    let second = Rc::new(module("B", vec![Statement::Object(object("Y", vec![]))]));
    let a = module(
        "A",
        vec![
            Statement::Command(Command::Use(s("B"))),
            Statement::Object(object(
                "F",
                vec![BodyStatement::External(External {
                    module: s("B"),
                    object: s("Y"),
                    implement: false,
                })],
            )),
        ],
    );
    let r = a.compile(&vec![first, second]);
    assert!(matches!(
        r,
        Err(CompileFailure { kind: CompileErrorKind::NoObjectInModule(_), .. })
    ));
}

#[test]
fn modules_are_collected_in_order() {
    let m1 = Rc::new(module("One", vec![]));
    let m2 = Rc::new(module("Two", vec![]));
    let m3 = Rc::new(module("Three", vec![]));
    let files = vec![
        (s("a"), vec![Section::CSource(s("x")), Section::MmgxModule(m1.clone())]),
        (s("b"), vec![]),
        (s("c"), vec![Section::MmgxModule(m2.clone()), Section::MmgxModule(m3.clone())]),
    ];
    let modules = collect_modules(&files);
    assert_eq!(modules, vec![m1.clone(), m2, m3]);
    assert!(Rc::ptr_eq(&modules[0], &m1));
}

#[test]
fn sections_compile_one_by_one() {
    let m = Rc::new(module("M", vec![Statement::Comment(s("// c"))]));
    let registry = vec![m.clone()];
    assert_eq!(compile_section(&Section::CSource(s("int x;")), &registry), Ok(s("int x;")));
    assert_eq!(compile_section(&Section::MmgxModule(m), &registry), Ok(s("// c\n")));
    let bad = Rc::new(MmgxModule {
        name: s("N"),
        body: vec![Statement::Command(Command::Use(s("Q")))],
        line: 9,
    });
    let e = compile_section(&Section::MmgxModule(bad), &registry).expect_err("fails");
    assert_eq!(e.line, 9);
    assert_eq!(e.error.context, vec![s("N")]);
}

#[test]
fn body_tokens_are_classified() {
    let tokens = vec![
        tok(CodeToken::Whitespace, " "),
        tok(CodeToken::Name, "a"),
        tok(CodeToken::VaArgs, "..."),
        tok(CodeToken::Name, "B"),
        tok(CodeToken::Dot, "."),
        tok(CodeToken::Name, "X"),
        tok(CodeToken::Number, "1"),
        BodyToken { kind: None, text: s("") },
        tok(CodeToken::Name, "q"),
    ];
    let params = Some(vec![TemplateParameter::Param(s("a"))]);
    assert_eq!(
        parse_body(tokens.clone(), &params, &None, true),
        vec![
            BodyStatement::Expand(s(" ")),
            BodyStatement::Parameter(0),
            BodyStatement::Expand(s("__VA_ARGS__")),
            BodyStatement::External(External { module: s("B"), object: s("X"), implement: true }),
            BodyStatement::Expand(s("1")),
            BodyStatement::OptDependency(s("q")),
            BodyStatement::Expand(s("")),
        ]
    );
    assert_eq!(
        parse_body(tokens, &None, &None, false)[..3],
        [
            BodyStatement::Expand(s(" ")),
            BodyStatement::OptDependency(s("a")),
            BodyStatement::Expand(s("...")),
        ]
    );
    assert_eq!(parse_body(vec![], &None, &None, false), vec![BodyStatement::Expand(s(""))]);
}

#[test]
fn references_are_read_from_body_tokens() {
    let tokens = vec![
        tok(CodeToken::Name, "T"),
        tok(CodeToken::DiamondOpen, "<"),
        tok(CodeToken::Name, "a"),
        tok(CodeToken::Comma, ","),
        tok(CodeToken::Name, "n"),
        tok(CodeToken::DiamondClose, ">"),
        tok(CodeToken::Name, "M"),
        tok(CodeToken::ScopeResolution, "::"),
        tok(CodeToken::Name, "X"),
    ];
    let params = Some(vec![TemplateParameter::Param(s("a"))]);
    let args = Some(vec![s("n")]);
    let mut i = 0;
    assert_eq!(
        parse_mmgx_object_body(&tokens, &mut i, &params, &args),
        Some(BodyStatement::TemplateCall(TemplateCall { name: s("T"), args: vec![s("a"), s("n")] }))
    );
    assert_eq!(i, 5);
    let mut i = 0;
    assert_eq!(parse_mmgx_object_body(&tokens, &mut i, &params, &None), None);
    assert_eq!(i, 0);
    let mut i = 6;
    assert_eq!(
        parse_mmgx_object_body(&tokens, &mut i, &None, &None),
        Some(BodyStatement::External(External { module: s("M"), object: s("X"), implement: false }))
    );
    assert_eq!(i, 8);
    let mut i = 8;
    assert_eq!(parse_mmgx_object_body(&tokens, &mut i, &None, &None), None);
    let mut i = 40;
    assert_eq!(parse_mmgx_object_body(&tokens, &mut i, &None, &None), None);
    assert_eq!(i, 40);
}

#[test]
fn open_bracket_without_close_is_no_call() {
    let tokens = vec![tok(CodeToken::Name, "X"), tok(CodeToken::DiamondOpen, "<")];
    let mut i = 0;
    assert_eq!(parse_mmgx_object_body(&tokens, &mut i, &None, &None), None);
    assert_eq!(i, 0);
    assert_eq!(
        parse_body(tokens, &None, &None, false),
        vec![
            BodyStatement::Expand(s("")),
            BodyStatement::OptDependency(s("X")),
            BodyStatement::Expand(s("<")),
        ]
    );
}

#[test]
fn unknown_name_after_bracket_is_no_call() {
    let tokens = vec![
        tok(CodeToken::Name, "X"),
        tok(CodeToken::DiamondOpen, "<"),
        tok(CodeToken::Name, "q"),
    ];
    let mut i = 0;
    assert_eq!(parse_mmgx_object_body(&tokens, &mut i, &None, &None), None);
    assert_eq!(i, 0);
    let args = Some(vec![s("q")]);
    let mut i = 0;
    assert_eq!(parse_mmgx_object_body(&tokens, &mut i, &None, &args), None);
    assert_eq!(i, 0);
}

#[test]
fn less_than_in_a_body_stays_text() {
    let tokens = vec![
        tok(CodeToken::Whitespace, " "),
        tok(CodeToken::Name, "x"),
        tok(CodeToken::DiamondOpen, "<"),
        tok(CodeToken::Name, "y"),
    ];
    assert_eq!(
        parse_body(tokens, &None, &None, false),
        vec![
            BodyStatement::Expand(s(" ")),
            BodyStatement::OptDependency(s("x")),
            BodyStatement::Expand(s("<")),
            BodyStatement::OptDependency(s("y")),
            BodyStatement::Expand(s("")),
        ]
    );
}

#[test]
fn template_call_with_empty_brackets() {
    let tokens = vec![
        tok(CodeToken::Name, "T"),
        tok(CodeToken::DiamondOpen, "<"),
        tok(CodeToken::Whitespace, " "),
        tok(CodeToken::DiamondClose, ">"),
        tok(CodeToken::Number, "1"),
    ];
    let mut i = 0;
    assert_eq!(
        parse_mmgx_object_body(&tokens, &mut i, &None, &None),
        Some(BodyStatement::TemplateCall(TemplateCall { name: s("T"), args: vec![] }))
    );
    assert_eq!(i, 3);
}

#[test]
fn template_call_reaches_its_closing_bracket() {
    let tokens = vec![
        tok(CodeToken::Name, "T"),
        tok(CodeToken::DiamondOpen, "<"),
        tok(CodeToken::Whitespace, " "),
        tok(CodeToken::Name, "a"),
        tok(CodeToken::Whitespace, " "),
        tok(CodeToken::Comma, ","),
        tok(CodeToken::Whitespace, "\t"),
        tok(CodeToken::Name, "b"),
        tok(CodeToken::Whitespace, " "),
        tok(CodeToken::DiamondClose, ">"),
        tok(CodeToken::Name, "z"),
    ];
    let args = Some(vec![s("a"), s("b")]);
    let mut i = 0;
    assert_eq!(
        parse_mmgx_object_body(&tokens, &mut i, &None, &args),
        Some(BodyStatement::TemplateCall(TemplateCall { name: s("T"), args: vec![s("a"), s("b")] }))
    );
    assert_eq!(i, 9);
    assert_eq!(
        parse_body(tokens, &None, &args, false),
        vec![
            BodyStatement::Expand(s("")),
            BodyStatement::TemplateCall(TemplateCall { name: s("T"), args: vec![s("a"), s("b")] }),
            BodyStatement::Expand(s("")),
            BodyStatement::OptDependency(s("z")),
            BodyStatement::Expand(s("")),
        ]
    );
}

#[test]
fn malformed_argument_lists_are_no_calls() {
    let args = Some(vec![s("a"), s("b")]);
    let cases: Vec<Vec<BodyToken>> = vec![
        // trailing comma
        vec![
            tok(CodeToken::Name, "T"),
            tok(CodeToken::DiamondOpen, "<"),
            tok(CodeToken::Name, "a"),
            tok(CodeToken::Comma, ","),
            tok(CodeToken::DiamondClose, ">"),
        ],
        // two names without a comma
        vec![
            tok(CodeToken::Name, "T"),
            tok(CodeToken::DiamondOpen, "<"),
            tok(CodeToken::Name, "a"),
            tok(CodeToken::Whitespace, " "),
            tok(CodeToken::Name, "b"),
            tok(CodeToken::DiamondClose, ">"),
        ],
        // the list ends before the closing bracket
        vec![
            tok(CodeToken::Name, "T"),
            tok(CodeToken::DiamondOpen, "<"),
            tok(CodeToken::Name, "a"),
            tok(CodeToken::Comma, ","),
            tok(CodeToken::Name, "b"),
        ],
        // the last argument is not known
        vec![
            tok(CodeToken::Name, "T"),
            tok(CodeToken::DiamondOpen, "<"),
            tok(CodeToken::Name, "a"),
            tok(CodeToken::Comma, ","),
            tok(CodeToken::Name, "c"),
            tok(CodeToken::DiamondClose, ">"),
        ],
        // a number is no argument
        vec![
            tok(CodeToken::Name, "T"),
            tok(CodeToken::DiamondOpen, "<"),
            tok(CodeToken::Number, "1"),
            tok(CodeToken::DiamondClose, ">"),
        ],
        // the name before the bracket must be a plain name
        vec![
            tok(CodeToken::Identifier, "t_1"),
            tok(CodeToken::DiamondOpen, "<"),
            tok(CodeToken::Name, "a"),
            tok(CodeToken::DiamondClose, ">"),
        ],
    ];
    for tokens in cases {
        let mut i = 0;
        assert_eq!(parse_mmgx_object_body(&tokens, &mut i, &None, &args), None, "{:?}", tokens);
        assert_eq!(i, 0);
    }
}

#[test]
fn lexer_reads_token_by_token() {
    let mut lex = Lexer::new("ab // c\n 12");
    assert_eq!(lex.next(), Some(CodeToken::Name));
    assert_eq!(lex.slice(), "ab");
    assert_eq!(lex.next_non_whitespace(), Some(CodeToken::NewLine));
    assert_eq!(
        LexerInfo::get(&lex),
        LexerInfo { line: 1, line_start: 8, line_start_last: 0, offset: 7 }
    );
    assert_eq!(lex.next_non_whitespace(), Some(CodeToken::Number));
    assert_eq!(lex.slice(), "12");
    assert_eq!(lex.text(3, 7), "// c");
    assert_eq!(lex.text(7, 3), "");
    assert_eq!(lex.next(), None);
    assert_eq!(lex.slice(), "");
    assert_eq!(lex.next(), None);
    assert_eq!(lex.current().start, 11);
}

#[test]
fn parameter_lists_yield_the_texts_of_their_tokens() {
    let mut lex = Lexer::new("<1..2 , 3 .. 40> rest");
    assert_eq!(lex.next(), Some(CodeToken::DiamondOpen));
    let capture = vec![vec![CodeToken::Number, CodeToken::Range, CodeToken::Number]];
    let list = parse_mmgx_parameters(&mut lex, &capture, CodeToken::DiamondClose).expect("parses");
    assert_eq!(
        list,
        vec![vec![s("1"), s(".."), s("2")], vec![s("3"), s(".."), s("40")]]
    );
    assert_eq!(lex.slice(), ">");
}

#[test]
fn parameter_list_that_ends_with_the_text() {
    let mut lex = Lexer::new("<a, b");
    assert_eq!(lex.next(), Some(CodeToken::DiamondOpen));
    let capture = vec![vec![CodeToken::Name]];
    let list = parse_mmgx_parameters(&mut lex, &capture, CodeToken::DiamondClose).expect("parses");
    assert_eq!(list, vec![vec![s("a")]]);
}

#[test]
fn one_parameter_against_variants() {
    let lex = Lexer::new("x");
    let capture = vec![vec![CodeToken::Name], vec![CodeToken::VaArgs]];
    assert_eq!(
        parse_mmgx_parameters_body(&lex, vec![tok(CodeToken::VaArgs, "...")], &capture),
        Ok(vec![s("...")])
    );
    assert_eq!(
        parse_mmgx_parameters_body(
            &lex,
            vec![tok(CodeToken::Name, "a"), tok(CodeToken::Number, "1")],
            &capture
        ),
        Ok(vec![s("a")])
    );
    assert_eq!(parse_mmgx_parameters_body(&lex, vec![], &capture), Ok(vec![s("")]));
    assert!(parse_mmgx_parameters_body(&lex, vec![tok(CodeToken::Comma, ",")], &capture).is_err());
    assert!(parse_mmgx_parameters_body(&lex, vec![], &vec![]).is_err());
}

#[test]
fn values_read_in_diagnostics() {
    assert_eq!(token_name_string(CodeToken::CurleyClose), "CurleyClose");
    assert_eq!(token_name_string(CodeToken::ScopeResolution), "ScopeResolution");
    assert_eq!(debug_tokens_string(&vec![]), "[]");
    assert_eq!(
        debug_tokens_string(&vec![CodeToken::Name, CodeToken::VaArgs]),
        "[Name, VaArgs]"
    );
    assert_eq!(debug_texts_string(&vec![s("a"), s("b\"c")]), "[\"a\", \"b\\\"c\"]");
    let template = Template {
        params: vec![],
        obj: object("T", vec![]),
    };
    assert_eq!(
        debug_template_string(&template),
        "Template { params: [], obj: Object { name: \"T\", body: [] } }"
    );
}
