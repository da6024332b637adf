use skye::ast::{ImportType, Statement};
use skye::irgen::{split_interpolated_string, InterpolatedStringPortion, LoopLabel};
use skye::irgen::InterpolatedStringPortion::{String as Text, Value};
use skye::tokens::TokenType;
use skye::{prepare_base_imports, Checks, CompilerConfig, TargetOS};

fn config(no_builtins: bool, no_panic: bool) -> CompilerConfig {
    CompilerConfig::new(
        String::from("skyec"),
        String::from("/opt/skye"),
        String::from("core/primitives"),
        no_builtins,
        no_panic,
        0,
        TargetOS::Current,
        8,
        TargetOS::Linux,
    )
}

fn import_path(s: &Statement) -> String {
    match s {
        Statement::Import { path, type_, is_include } => {
            assert_eq!(*type_, ImportType::Default);
            assert!(!*is_include);
            assert_eq!(path.type_, TokenType::Identifier);
            assert_eq!((path.pos, path.end, path.line), (0, 1, 0));
            assert_eq!(path.filename, "main.skye");
            path.lexeme.clone()
        },
        other => panic!("not an import: {:?}", other),
    }
}

#[test]
fn base_imports_come_first() {
    let mut statements = vec![Statement::Empty];
    prepare_base_imports(&mut statements, &String::from("src"), String::from("main.skye"), &config(false, false));
    assert_eq!(statements.len(), 5);
    let paths: Vec<String> = statements[..4].iter().map(import_path).collect();
    assert_eq!(paths, vec!["core/core", "core/primitives", "core/builtins", "core/panic"]);
    assert_eq!(statements[4], Statement::Empty);
}

#[test]
fn base_imports_respect_the_switches() {
    let mut statements = Vec::new();
    prepare_base_imports(&mut statements, &String::from("src"), String::from("main.skye"), &config(true, false));
    assert_eq!(statements.iter().map(import_path).collect::<Vec<_>>(), vec!["core/core"]);
    let mut statements = Vec::new();
    prepare_base_imports(&mut statements, &String::from("src"), String::from("main.skye"), &config(false, true));
    assert_eq!(
        statements.iter().map(import_path).collect::<Vec<_>>(),
        vec!["core/core", "core/primitives", "core/builtins"]
    );
}

#[test]
fn config_resolves_the_host_defaults() {
    let c = config(false, false);
    assert_eq!(c.ptr_size, 8);
    assert_eq!(c.target_os, TargetOS::Linux);
    assert_eq!(c.checks, Checks::Debug);
    let c = CompilerConfig::new(
        String::from("skyec"),
        String::from("/opt/skye"),
        String::from("p"),
        false,
        false,
        4,
        TargetOS::Windows,
        8,
        TargetOS::Linux,
    );
    assert_eq!(c.ptr_size, 4);
    assert_eq!(c.target_os, TargetOS::Windows);
}

#[test]
fn os_names_map_to_targets() {
    assert_eq!(TargetOS::from_os_name("linux"), TargetOS::Linux);
    assert_eq!(TargetOS::from_os_name("windows"), TargetOS::Windows);
    assert_eq!(TargetOS::from_os_name("macos"), TargetOS::MacOS);
    assert_eq!(TargetOS::from_os_name("freebsd"), TargetOS::Unknown);
}

#[test]
fn interpolated_strings_split_at_unescaped_markers() {
    assert_eq!(
        split_interpolated_string("a % b"),
        vec![Text(String::from("a ")), Value, Text(String::from(" b"))]
    );
    assert_eq!(split_interpolated_string("100\\%"), vec![Text(String::from("100\\%"))]);
    assert_eq!(split_interpolated_string("\\\\%"), vec![Text(String::from("\\\\")), Value, Text(String::new())]);
    assert_eq!(split_interpolated_string("%%"), vec![Value, Text(String::new()), Value, Text(String::new())]);
    assert_eq!(split_interpolated_string(""), Vec::new());
}

#[test]
fn loop_labels_start_unused() {
    let l = LoopLabel::new(&String::from("__SKYE_LOOP_0"));
    assert_eq!(l.label, "__SKYE_LOOP_0");
    assert!(!l.used);
}

#[test]
fn executable_name_per_target() {
    assert_eq!(TargetOS::Linux.get_filename("build/prog", TargetOS::Windows), "build/prog");
    assert_eq!(TargetOS::MacOS.get_filename("prog", TargetOS::Linux), "prog");
    assert_eq!(TargetOS::Current.get_filename("build/prog", TargetOS::Linux), "build/prog");
    assert_eq!(TargetOS::Windows.get_filename("build/prog", TargetOS::Linux), "build/prog.exe");
    assert_eq!(TargetOS::Current.get_filename("prog.out", TargetOS::Windows), "prog.exe");
}

#[test]
fn interpolation_counts_unescaped_percent_signs() {
    let parts = split_interpolated_string("a%b\\%c\\\\%d%");
    let values = parts.iter().filter(|p| matches!(p, Value)).count();
    assert_eq!(values, 3);
    let text: String = parts
        .iter()
        .filter_map(|p| match p {
            Text(t) => Some(t.as_str()),
            Value => None,
        })
        .collect();
    assert_eq!(text, "ab\\%c\\\\d");
    for w in parts.windows(2) {
        assert!(matches!(w[0], Value) != matches!(w[1], Value));
    }
    assert!(matches!(parts.last(), Some(Text(_))));
}

#[test]
fn executable_name_replaces_an_extension() {
    assert_eq!(TargetOS::Windows.get_filename("build/tmp.out", TargetOS::Linux), "build/tmp.exe");
    assert_eq!(TargetOS::Windows.get_filename("a.b/prog", TargetOS::Linux), "a.b/prog.exe");
}
