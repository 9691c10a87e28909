use mmgx::compile::compile;
use mmgx::error::{CompileErrorKind, MmgxError, MmgxErrorKind};
use mmgx::ast::External;
use mmgx::parse::module::parse_source;

fn run(sources: &[&str]) -> Result<Vec<String>, MmgxError> {
    let mut files = Vec::new();
    for (i, source) in sources.iter().enumerate() {
        let sections = parse_source(source).expect("the source parses");
        files.push((format!("in{}.mmgx", i), sections));
    }
    compile(&files)
}

fn build(source: &str) -> String {
    let mut out = run(&[source]).expect("the source compiles");
    out.remove(0)
}

fn failure(sources: &[&str]) -> (String, usize, Vec<String>, CompileErrorKind) {
    match run(sources) {
        Ok(out) => panic!("compiled to {:?}", out),
        Err(MmgxError { path, error: MmgxErrorKind::CompileError(e) }) => {
            (path, e.line, e.error.context, e.error.kind)
        }
        Err(other) => panic!("unexpected error {:?}", other),
    }
}

#[test]
fn plain_object_gets_decorated_name() {
    assert_eq!(build("@M {\nFOO 1+2\n}"), "#define __M_FOO 1+2\n\n");
}

#[test]
fn exported_object_has_no_decoration() {
    assert_eq!(build("@M {\n@export FOO 1+2\n}"), "#define M_FOO 1+2\n\n");
}

#[test]
fn template_instances_enumerate_leftmost_slowest() {
    assert_eq!(
        build("@M {\nT<a,b> a+b\n@impl T<1..2, 3..4>\n}"),
        "\n#define __M_T_1_3 1+3\n#define __M_T_1_4 1+4\n#define __M_T_2_3 2+3\n#define __M_T_2_4 2+4\n\n"
    );
}

#[test]
fn repeated_parameter_shares_one_slot() {
    assert_eq!(build("@M {\nT<a,a> a+a\n@impl T<1..1>\n}"), "\n#define __M_T_1 1+1\n\n");
}

#[test]
fn unimported_module_is_reported() {
    let (path, line, context, kind) = failure(&["@A {\nFOO Other::X\n}"]);
    assert_eq!(path, "in0.mmgx");
    assert_eq!(line, 0);
    assert_eq!(context, vec!["A".to_string(), "FOO".to_string()]);
    assert_eq!(kind, CompileErrorKind::ModuleNotIncluded("Other".to_string()));
}

#[test]
fn missing_object_is_reported() {
    let (_, _, context, kind) = failure(&["@B {\nY 1\n}\n@A {\n@use B\nFOO B::X\n}"]);
    assert_eq!(context, vec!["A".to_string(), "FOO".to_string()]);
    assert_eq!(
        kind,
        CompileErrorKind::NoObjectInModule(External {
            module: "B".to_string(),
            object: "X".to_string(),
            implement: false,
        })
    );
}

#[test]
fn range_count_must_match_parameter_count() {
    let (_, _, context, kind) = failure(&["@M {\nT<a,b> a\n@impl T<1..2>\n}"]);
    assert_eq!(context, vec!["M".to_string()]);
    assert_eq!(kind, CompileErrorKind::TemplateParameterOutOfRange(1, 2));
}

#[test]
fn implement_reference_inlines_target_before_the_macro() {
    assert_eq!(
        build("@B {\nX\n}\n@A {\n@use B\nFOO B.X\n}"),
        "#define __B_X\n\n\n\n#define __A_FOO_IMPL_B_X\n#define __A_FOO __A_FOO_IMPL_B\n\n"
    );
}

#[test]
fn implement_reference_inlines_the_target_body() {
    assert_eq!(
        build("@B {\n@export X 40+2\n}\n@A {\n@use B\nFOO (B.X)\n}"),
        "#define B_X 40+2\n\n\n\n#define __A_FOO_IMPL_B_X 40+2\n#define __A_FOO (__A_FOO_IMPL_B)\n\n"
    );
}

#[test]
fn direct_reference_names_the_foreign_symbol() {
    assert_eq!(
        build("@B {\nX 1\n}\n@A {\n@use B\nFOO B::X\n}"),
        "#define __B_X 1\n\n\n\n#define __A_FOO __B_X\n\n"
    );
}

#[test]
fn direct_reference_to_export_keeps_fixed_naming() {
    assert_eq!(
        build("@B {\n@export X 1\n}\n@A {\n@use B\nFOO B::X\n}"),
        "#define B_X 1\n\n\n\n#define __A_FOO __B_X\n\n"
    );
}

#[test]
fn local_names_resolve_to_symbols() {
    assert_eq!(
        build("@M {\nA 1\n@export B 2\nC A+B+D\n}"),
        "#define __M_A 1\n\n#define M_B 2\n\n#define __M_C __M_A+M_B+D\n\n"
    );
}

#[test]
fn later_declarations_resolve_too() {
    assert_eq!(build("@M {\nC A\nA 1\n}"), "#define __M_C __M_A\n\n#define __M_A 1\n\n");
}

#[test]
fn first_declaration_wins() {
    assert_eq!(
        build("@M {\n@export A 1\nA 2\nC A\n}"),
        "#define M_A 1\n\n#define __M_A 2\n\n#define __M_C M_A\n\n"
    );
}

#[test]
fn template_call_appends_bound_values() {
    assert_eq!(
        build("@M {\nT<a> a\nU<x> T<x>\n@impl U<1..2>\n}"),
        "\n\n#define __M_U_1 __M_T_1\n#define __M_U_2 __M_T_2\n\n"
    );
}

#[test]
fn template_call_pastes_macro_arguments() {
    assert_eq!(
        build("@M {\nT<a> a\nF(n) T<n>\n}"),
        "\n#define __M_F(n) __M_T##_##n\n\n"
    );
}

#[test]
fn template_call_mixes_values_and_arguments() {
    assert_eq!(
        build("@M {\nT<a,b> a\nU<x>(n) T<x,n>\n@impl U<7..7>\n}"),
        "\n\n#define __M_U_7(n) __M_T_7##_##n\n\n"
    );
}

#[test]
fn template_call_with_spaces_between_arguments() {
    assert_eq!(
        build("@M {\nT<a,b> a\nU<x,y> T<x, y>;\n@impl U<1..1, 2..2>\n}"),
        "\n\n#define __M_U_1_2 __M_T_1_2;\n\n"
    );
}

#[test]
fn comparison_in_a_body_is_kept() {
    assert_eq!(build("@M {\nLESS(a, b) a<b\n}"), "#define __M_LESS(a, b) a<b\n\n");
    assert_eq!(build("@M {\nA 1\nFOO A<2\n}"), "#define __M_A 1\n\n#define __M_FOO __M_A<2\n\n");
}

#[test]
fn variadic_arguments_are_rewritten() {
    assert_eq!(
        build("@M {\nF(a, ...) a ...\n}"),
        "#define __M_F(a, ...) a __VA_ARGS__\n\n"
    );
}

#[test]
fn dots_stay_without_variadic_arguments() {
    assert_eq!(build("@M {\nF(a) a ...\n}"), "#define __M_F(a) a ...\n\n");
}

#[test]
fn comments_pass_through() {
    assert_eq!(build("@M {\n// hi there\nA 1\n}"), "// hi there\n#define __M_A 1\n\n");
}

#[test]
fn source_text_is_kept_verbatim() {
    assert_eq!(
        build("int x = 1;\n@M {\nA 1\n}\nint y;\n"),
        "int x = 1;\n#define __M_A 1\n\n\nint y;\n"
    );
}

#[test]
fn declaration_without_body() {
    assert_eq!(build("@M {\nFOO\nBAR 1\n}"), "#define __M_FOO\n\n#define __M_BAR 1\n\n");
}

#[test]
fn empty_range_yields_no_instance() {
    assert_eq!(build("@M {\nT<a> a\n@impl T<3..2>\n}"), "\n\n");
}

#[test]
fn single_value_range() {
    assert_eq!(build("@M {\nT<a> x a\n@impl T<10..10>\n}"), "\n#define __M_T_10 x 10\n\n");
}

#[test]
fn three_slots_enumerate_in_order() {
    assert_eq!(
        build("@M {\nT<a,b,c> a b c\n@impl T<0..1, 5..5, 8..9>\n}"),
        "\n#define __M_T_0_5_8 0 5 8\n#define __M_T_0_5_9 0 5 9\n#define __M_T_1_5_8 1 5 8\n#define __M_T_1_5_9 1 5 9\n\n"
    );
}

#[test]
fn modules_of_other_files_can_be_used() {
    let out = run(&["@A {\n@use B\nFOO B::X\n}", "@B {\nX 1\n}"]).expect("compiles");
    assert_eq!(out, vec!["\n#define __A_FOO __B_X\n\n".to_string(), "#define __B_X 1\n\n".to_string()]);
}

#[test]
fn unknown_module_in_use() {
    let (_, _, context, kind) = failure(&["@A {\n@use Nope\n}"]);
    assert_eq!(context, vec!["A".to_string()]);
    assert_eq!(kind, CompileErrorKind::ModuleNotFound("Nope".to_string()));
}

#[test]
fn template_must_be_declared_before_impl() {
    let (_, _, _, kind) = failure(&["@A {\n@impl T<1..2>\nT<a> a\n}"]);
    assert_eq!(kind, CompileErrorKind::TemplateNotFound("T".to_string()));
}

#[test]
fn parameter_after_repetition_takes_the_next_slot() {
    assert_eq!(
        build("@M {\nT<a,a,b> a b U<b>\n@impl T<1..1, 2..2>\n}"),
        "\n#define __M_T_1_2 1 2 U_2\n\n"
    );
}

#[test]
fn failure_in_second_file_names_its_path() {
    let (path, line, _, _) = failure(&["@A {\nX 1\n}", "\n\n@B {\n@use C\n}"]);
    assert_eq!(path, "in1.mmgx");
    assert_eq!(line, 2);
}

#[test]
fn self_implementing_object_is_reported() {
    let (_, _, context, kind) = failure(&["@B {\n@use B\nX B.X\n}"]);
    assert_eq!(
        kind,
        CompileErrorKind::RecursiveImplement(External {
            module: "B".to_string(),
            object: "X".to_string(),
            implement: true,
        })
    );
    assert_eq!(
        context,
        vec!["B".to_string(), "X".to_string(), "X".to_string(), "X".to_string()]
    );
}

#[test]
fn implement_cycle_between_two_objects_is_reported() {
    let (_, _, _, kind) = failure(&["@B {\nX B.Y\nY B.X\n}\n@A {\n@use B\nFOO B.X\n}"]);
    assert!(matches!(kind, CompileErrorKind::ModuleNotIncluded(_)));
    let (_, _, context, kind) =
        failure(&["@B {\n}\n@C {\nX C.Y\nY C.X\n}\n@A {\n@use C\nFOO C.X\n}"]);
    assert!(matches!(kind, CompileErrorKind::ModuleNotIncluded(_)));
    assert_eq!(context, vec!["C".to_string(), "X".to_string()]);
}

#[test]
fn module_without_use_cannot_reference_itself() {
    let (_, _, context, kind) = failure(&["@B {\nX 1\nY B.X\n}"]);
    assert_eq!(context, vec!["B".to_string(), "Y".to_string()]);
    assert_eq!(kind, CompileErrorKind::ModuleNotIncluded("B".to_string()));
}

#[test]
fn nested_implement_references() {
    assert_eq!(
        build("@C {\n@use C\nX 1\nY C.X\n}\n@A {\n@use C\nFOO C.Y\n}"),
        "\n#define __C_X 1\n\n#define __C_Y_IMPL_C_X 1\n#define __C_Y __C_Y_IMPL_C\n\n\n\n#define ____A_FOO_IMPL_C_Y_IMPL_C_X 1\n#define __A_FOO_IMPL_C_Y ____A_FOO_IMPL_C_Y_IMPL_C\n#define __A_FOO __A_FOO_IMPL_C\n\n"
    );
}

#[test]
fn compiling_twice_gives_the_same_output() {
    let source = "@M {\nT<a,b> a+b\n@impl T<1..2, 3..4>\nFOO T\n}";
    assert_eq!(build(source), build(source));
}
