use mmgx::ast::External;
use mmgx::compile::compile;
use mmgx::error::{
    CompileError, CompileErrorKind, CompileFailure, MmgxError, MmgxErrorKind, ParseError,
    ParseErrorKind,
};
use mmgx::parse::module::{parse_source, parse_x_file};
use mmgx::token::CodeToken;

fn parse_report(source: &str) -> String {
    parse_x_file("p", source).expect_err("fails").to_string()
}

fn failure(context: &[&str], kind: CompileErrorKind) -> CompileFailure {
    CompileFailure { context: context.iter().map(|c| c.to_string()).collect(), kind }
}

#[test]
fn unexpected_token_report() {
    assert_eq!(
        parse_report("@M {\n  $\n}"),
        "Parsing failed!\nerror at p:1:2 Unexpected Token got Unknown(\"$\") expected [Name, Modifier, CurleyClose]\n  $\n  ~\n"
    );
}

#[test]
fn unknown_command_report_widens_tabs() {
    assert_eq!(
        parse_report("@M {\n\t@foo x\n}"),
        "Parsing failed!\nerror at p:1:2 Unknown Command 'foo'\n\t@foo\n      ~~~\n"
    );
}

#[test]
fn end_of_file_report() {
    assert_eq!(
        parse_report("@M {\nA 1\n"),
        "Parsing failed!\nerror at p:2:0 Reached End of File expected Token [Name, Modifier, CurleyClose]\n\n\n"
    );
}

#[test]
fn line_break_report_drops_the_pad_before_the_break() {
    let e = ParseError {
        line: 0,
        prefix: "ab\n\tc".to_string(),
        token: "xy".to_string(),
        kind: ParseErrorKind::UnexpectedToken { got: CodeToken::Name, expected: vec![] },
    };
    assert_eq!(
        e.fmt("f.mmgx"),
        "error at f.mmgx:0:5 Unexpected Token got Name(\"xy\") expected []\nab\n\tcxy      ~~\n"
    );
}

#[test]
fn reported_line_break() {
    assert_eq!(
        parse_report("x\n@M\n{"),
        "Parsing failed!\nerror at p:1:2 Unexpected Token got NewLine(\"\\n\") expected [CurlyOpen]\n@M\n\n  ~\n"
    );
}

#[test]
fn columns_and_underlines_count_bytes() {
    assert_eq!(
        parse_report("@M {\n  é\n}"),
        "Parsing failed!\nerror at p:1:2 Unexpected Token got Unknown(\"é\") expected [Name, Modifier, CurleyClose]\n  é\n  ~~\n"
    );
    assert_eq!(
        parse_report("@M {\n@impl T<é>\n}"),
        "Parsing failed!\nerror at p:1:10 Unexpected Token got Unknown(\">\") expected [Number, Number]\n@impl T<é>\n         ~\n"
    );
}

#[test]
fn wrong_argument_report() {
    assert_eq!(
        parse_report("@M {\n@export T<a> B.a\n}"),
        "Parsing failed!\nerror at p:1:8 Wrong Argument for @export got Template(Template { params: [Param(\"a\")], obj: Object { name: \"T\", body: [Expand(\" \"), External(External { module: \"B\", object: \"a\", implement: true }), Expand(\"\")] } }) expected [\"Object\"]\n@export T<a> B.a\n\n        ~~~~~~~~~\n"
    );
}

#[test]
fn wrong_argument_report_lists_every_fragment_kind() {
    assert_eq!(
        parse_report("@M {\n@export T<a,a>(n) a x U<n>\n}"),
        "Parsing failed!\nerror at p:1:8 Wrong Argument for @export got Template(Template { params: [Param(\"a\"), Reference(0)], obj: Object { name: \"T\", body: [Expand(\"(\"), Expand(\"n)\"), Expand(\" \"), Parameter(0), Expand(\" \"), OptDependency(\"x\"), Expand(\" \"), TemplateCall(TemplateCall { name: \"U\", args: [\"n\"] }), Expand(\"\")] } }) expected [\"Object\"]\n@export T<a,a>(n) a x U<n>\n\n        ~~~~~~~~~~~~~~~~~~~\n"
    );
}

#[test]
fn compile_report_indents_the_context() {
    let sections = parse_source("@A {\nFOO Other::X\n}").expect("parses");
    let e = compile(&vec![("in.mmgx".to_string(), sections)]).expect_err("fails");
    assert_eq!(
        e.to_string(),
        "Compiling failed!\nerror at in.mmgx:0 While Compiling A:\n\tWhile Compiling FOO:\n\t\tModule Other has not been included! Include modules with @use [Module]\n"
    );
}

#[test]
fn compile_failure_sentences() {
    let ext = External { module: "M".to_string(), object: "O".to_string(), implement: false };
    assert_eq!(
        CompileError::fmt_err(&failure(&[], CompileErrorKind::NoObjectInModule(ext.clone())), 0),
        "Object O not found in Module M\n"
    );
    assert_eq!(
        CompileError::fmt_err(&failure(&[], CompileErrorKind::NoTemplateParameters), 2),
        "\t\tObject has no Template Parameters!\n"
    );
    assert_eq!(
        CompileError::fmt_err(
            &failure(&["a"], CompileErrorKind::TemplateParameterOutOfRange(3, 2)),
            1
        ),
        "\tWhile Compiling a:\n\t\tTried indexing template Parameter 3 but only 2 are specified!\n"
    );
    assert_eq!(
        CompileError::fmt_err(&failure(&[], CompileErrorKind::TemplateNotFound("T".to_string())), 0),
        "Template not found T\n"
    );
    assert_eq!(
        CompileError::fmt_err(&failure(&[], CompileErrorKind::ModuleNotFound("N".to_string())), 0),
        "Module not found N\n"
    );
    assert_eq!(
        CompileError::fmt_err(&failure(&[], CompileErrorKind::RecursiveImplement(ext)), 0),
        "Object O of Module M is implemented within itself\n"
    );
}

#[test]
fn compile_error_names_path_and_line() {
    let e = CompileError {
        line: 12,
        error: failure(&["M", "T"], CompileErrorKind::NoTemplateParameters),
    };
    assert_eq!(
        e.fmt("src/a.mmgx"),
        "error at src/a.mmgx:12 While Compiling M:\n\tWhile Compiling T:\n\t\tObject has no Template Parameters!\n"
    );
}

#[test]
fn file_errors() {
    assert_eq!(
        MmgxError::file_read_error("a.mmgx", "gone".to_string()).to_string(),
        "Could not read file 'a.mmgx': gone"
    );
    assert_eq!(
        MmgxError::file_open_error("a.c", "denied".to_string()).to_string(),
        "Could not open file 'a.c': denied"
    );
    assert_eq!(
        MmgxError::file_write_error("a.c", "full".to_string()).to_string(),
        "Could not write file 'a.c': full"
    );
}

#[test]
fn error_constructors_keep_their_parts() {
    let parse = ParseError {
        line: 1,
        prefix: String::new(),
        token: "x".to_string(),
        kind: ParseErrorKind::UnknownCommand("x".to_string()),
    };
    let e = MmgxError::parse_error("a", parse.clone());
    assert_eq!(e, MmgxError { path: "a".to_string(), error: MmgxErrorKind::ParseError(parse) });
    let compile = CompileError { line: 3, error: failure(&[], CompileErrorKind::NoTemplateParameters) };
    let e = MmgxError::compilation_error("b", compile.clone());
    assert_eq!(e, MmgxError { path: "b".to_string(), error: MmgxErrorKind::CompileError(compile) });
    assert_eq!(
        MmgxError::file_read_error("c", "r".to_string()).error,
        MmgxErrorKind::FileReadError("r".to_string())
    );
}

#[test]
fn quoted_text_is_escaped() {
    let e = ParseError {
        line: 0,
        prefix: String::new(),
        token: "a\"b\\\t".to_string(),
        kind: ParseErrorKind::UnexpectedToken { got: CodeToken::Unknown, expected: vec![CodeToken::Dot] },
    };
    assert_eq!(
        e.fmt("f"),
        "error at f:0:0 Unexpected Token got Unknown(\"a\\\"b\\\\\\t\") expected [Dot]\na\"b\\\t\n~~~~~\n"
    );
}
