use skye::codegen::{decimal_string, prepare_name, str_equal, CodeGen, CodeOutput, TypeOutput};

#[test]
fn prepare_name_reserves_c_keywords() {
    assert_eq!(prepare_name(String::from("static")), "__reserved_static");
    assert_eq!(prepare_name(String::from("_Bool")), "__reserved__Bool");
    assert_eq!(prepare_name(String::from("typeof_unqual")), "__reserved_typeof_unqual");
    assert_eq!(prepare_name(String::from("counter")), "counter");
    assert_eq!(prepare_name(String::from("Static")), "Static");
}

#[test]
fn code_output_indents_by_four_spaces() {
    let mut out = CodeOutput::new();
    out.inc_indent();
    out.inc_indent();
    out.push_indent();
    out.push("x;\n");
    out.dec_indent();
    out.push_indent();
    out.push("}");
    assert_eq!(out.code, "        x;\n    }");
    out.set_indent(0);
    out.push_indent();
    assert_eq!(out.code, "        x;\n    }");
}

#[test]
fn decimal_string_writes_digits() {
    assert_eq!(decimal_string(0), "0");
    assert_eq!(decimal_string(907), "907");
    assert_eq!(decimal_string(usize::MAX), usize::MAX.to_string());
}

#[test]
fn str_equal_compares_characters() {
    assert!(str_equal("abc", "abc"));
    assert!(!str_equal("abc", "abd"));
    assert!(!str_equal("ab", "abc"));
    assert!(str_equal("", ""));
}

#[test]
fn array_struct_is_declared_once() {
    let mut gen = CodeGen::new();
    gen.prepare_array_struct(String::from("i32_4"), "SKYE_ARRAY_i32_4", "i32", 4);
    gen.prepare_array_struct(String::from("i32_4"), "SKYE_ARRAY_i32_4", "i64", 9);
    let out = gen.assemble();
    assert_eq!(
        out,
        "// Hello from Skye!! ^_^\n\ntypedef struct SKYE_ARRAY_STRUCT_i32_4;\n\ntypedef struct SKYE_ARRAY_STRUCT_i32_4 {\n    i32 SKYE_ARRAY[4];\n} SKYE_ARRAY_i32_4;\n\n\n"
    );
}

#[test]
fn function_pointer_typedef_is_declared_once() {
    let mut gen = CodeGen::new();
    gen.generate_fn_signature(String::from("fnptr_i32"), Vec::new(), "i32", "u8, u8");
    gen.generate_fn_signature(String::from("fnptr_i32"), Vec::new(), "void", "");
    assert_eq!(gen.assemble(), "// Hello from Skye!! ^_^\n\ntypedef i32 (*fnptr_i32)(u8, u8);\n\n");
}

#[test]
fn declarations_come_after_what_they_depend_on() {
    let mut gen = CodeGen::new();
    gen.generate_fn_signature(String::from("fn_b"), vec![String::from("fn_a")], "void", "");
    gen.generate_fn_signature(String::from("fn_a"), vec![String::from("fn_c"), String::from("missing")], "void", "");
    gen.generate_fn_signature(String::from("fn_c"), vec![String::from("fn_c")], "void", "");
    let out = gen.assemble();
    let a = out.find("(*fn_a)").unwrap();
    let b = out.find("(*fn_b)").unwrap();
    let c = out.find("(*fn_c)").unwrap();
    assert!(c < a && a < b);
}

#[test]
fn type_outputs_keep_their_dependencies() {
    let mut buf = CodeOutput::new();
    buf.push("struct x;");
    let t = TypeOutput::new(buf, vec![String::from("y")]);
    assert_eq!(t.output.code, "struct x;");
    assert_eq!(t.dependencies, vec![String::from("y")]);
    let i = TypeOutput::independent(CodeOutput::new());
    assert!(i.dependencies.is_empty());
}

#[test]
fn empty_generator_gives_the_greeting_only() {
    let gen = CodeGen::new();
    assert_eq!(gen.assemble(), "// Hello from Skye!! ^_^\n\n");
}

#[test]
fn function_bodies_get_nested_scopes() {
    let mut gen = CodeGen::new();
    gen.begin_function(String::from("main"), "i32", "void", Vec::new());
    gen.begin_scope();
    gen.end_scope();
    gen.end_function();
    assert_eq!(
        gen.assemble(),
        "// Hello from Skye!! ^_^\n\ni32 main(void);\n\ni32 main(void) {\n    {\n    }\n}\n\n"
    );
}

#[test]
fn includes_labels_and_jumps() {
    let mut gen = CodeGen::new();
    gen.add_include("stdio.h", true);
    gen.add_include("local.h", false);
    gen.begin_function(String::from("f"), "void", "", Vec::new());
    gen.emit_label(String::from("static"));
    gen.emit_goto(String::from("again"));
    gen.emit_break();
    gen.end_function();
    assert_eq!(
        gen.assemble(),
        "// Hello from Skye!! ^_^\n\n#include <stdio.h>\n#include \"local.h\"\n\nvoid f();\n\nvoid f() {\n    __reserved_static:;\n    goto again;\n    break;\n}\n\n"
    );
}
