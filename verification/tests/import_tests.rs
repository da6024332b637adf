use skye::ast::import_processor::ImportProcessor as PlainImportProcessor;
use skye::ast::{AstPos, ImportType, Statement};
use skye::diagnostics::DiagnosticKind;
use skye::import_processor::{ImportAction, ImportDiagnostic, ImportMessage, ImportPaths, ImportProcessor};
use skye::tokens::{Token, TokenType};

fn tok(lexeme: &str, pos: usize) -> Token {
    Token::new(String::from("src"), String::from("main.skye"), TokenType::Identifier, String::from(lexeme), pos, pos + 1, 1)
}

fn pos(t: &Token) -> AstPos {
    AstPos::new(t.source.clone(), t.filename.clone(), t.pos, t.end, t.line)
}

fn key(path: &str) -> Vec<String> {
    std::path::Path::new(path).components().map(|c| c.as_os_str().to_string_lossy().into_owned()).collect()
}

fn paths(plain: &str, extension: Option<&str>, relative: bool) -> ImportPaths {
    let in_lib = format!("/opt/skye/lib/{}", plain);
    let in_lib_as_skye = format!("/opt/skye/lib/{}.skye", plain);
    let in_source = format!("/home/u/{}", plain);
    ImportPaths {
        plain: String::from(plain),
        extension: extension.map(String::from),
        relative,
        plain_key: key(plain),
        in_lib_key: key(&in_lib),
        in_lib_as_skye_key: key(&in_lib_as_skye),
        in_source_key: Some(key(&in_source)),
        in_lib,
        in_lib_as_skye,
        in_source: Some(in_source),
    }
}

#[test]
fn relative_import_without_extension_loads_from_the_library() {
    let mut p = ImportProcessor::new(Some("/home/u"), String::from("/opt/skye"));
    let action = p.decide_import(&tok("core/core", 0), ImportType::Default, false, paths("core/core", None, true));
    assert_eq!(action, ImportAction::Load(String::from("/opt/skye/lib/core/core.skye")));
    assert!(p.diagnostics.is_empty());
}

#[test]
fn relative_import_with_extension_loads_next_to_the_source() {
    let mut p = ImportProcessor::new(Some("/home/u"), String::from("/opt/skye"));
    let action = p.decide_import(&tok("a.skye", 0), ImportType::Default, false, paths("a.skye", Some("skye"), true));
    assert_eq!(action, ImportAction::Load(String::from("/home/u/a.skye")));
    let action = p.decide_import(&tok("b.skye", 0), ImportType::Lib, false, paths("b.skye", Some("skye"), true));
    assert_eq!(action, ImportAction::Load(String::from("/opt/skye/lib/b.skye")));
    let action = p.decide_import(&tok("c.h", 0), ImportType::Ang, false, paths("c.h", Some("h"), true));
    assert_eq!(action, ImportAction::Keep);
}

#[test]
fn absolute_import_without_extension_is_an_error() {
    let mut p = ImportProcessor::new(None, String::from("/opt/skye"));
    let t = tok("/usr/x", 3);
    let action = p.decide_import(&t, ImportType::Default, false, paths("/usr/x", None, false));
    assert_eq!(action, ImportAction::Reject);
    assert_eq!(p.errors, 1);
    assert_eq!(
        p.diagnostics,
        vec![
            ImportDiagnostic { kind: DiagnosticKind::Error, site: pos(&t), message: ImportMessage::MissingExtension },
            ImportDiagnostic { kind: DiagnosticKind::Note, site: pos(&t), message: ImportMessage::AddExtension },
        ]
    );
}

#[test]
fn second_import_into_the_same_namespace_is_dropped() {
    let mut p = ImportProcessor::new(Some("/home/u"), String::from("/opt/skye"));
    let first = tok("a.skye", 0);
    let second = tok("a.skye", 10);
    assert_eq!(
        p.decide_import(&first, ImportType::Default, false, paths("a.skye", Some("skye"), true)),
        ImportAction::Load(String::from("/home/u/a.skye"))
    );
    assert_eq!(p.decide_import(&second, ImportType::Default, false, paths("a.skye", Some("skye"), true)), ImportAction::Drop);
    assert_eq!(p.errors, 0);
    assert_eq!(
        p.diagnostics,
        vec![
            ImportDiagnostic { kind: DiagnosticKind::Warning, site: pos(&second), message: ImportMessage::DuplicateImport },
            ImportDiagnostic { kind: DiagnosticKind::Note, site: pos(&first), message: ImportMessage::PreviouslyImportedHere },
            ImportDiagnostic { kind: DiagnosticKind::Note, site: pos(&second), message: ImportMessage::UseIncludeInstead },
        ]
    );
    assert_eq!(
        p.decide_import(&second, ImportType::Default, true, paths("a.skye", Some("skye"), true)),
        ImportAction::Load(String::from("/home/u/a.skye"))
    );
}

#[test]
fn import_into_another_namespace_loads_again() {
    let mut p = ImportProcessor::new(Some("/home/u"), String::from("/opt/skye"));
    p.decide_import(&tok("a.skye", 0), ImportType::Default, false, paths("a.skye", Some("skye"), true));
    let previous = p.enter_namespace("inner");
    assert_eq!(p.get_name("f"), "inner_DOT_f");
    let t = tok("a.skye", 5);
    assert_eq!(
        p.decide_import(&t, ImportType::Default, false, paths("a.skye", Some("skye"), true)),
        ImportAction::Load(String::from("/home/u/a.skye"))
    );
    assert_eq!(
        p.diagnostics.last(),
        Some(&ImportDiagnostic {
            kind: DiagnosticKind::Note,
            site: pos(&t),
            message: ImportMessage::PreviousImportInOtherNamespace
        })
    );
    p.leave_namespace(previous);
    assert_eq!(p.get_name("f"), "f");
}

#[test]
fn c_imports_in_a_namespace_are_warned_about() {
    let mut p = ImportProcessor::new(None, String::from("/opt/skye"));
    let previous = p.enter_namespace("ns");
    let t = tok("stdio.h", 0);
    assert_eq!(p.decide_import(&t, ImportType::Ang, false, paths("stdio.h", Some("h"), true)), ImportAction::Keep);
    assert_eq!(
        p.diagnostics,
        vec![ImportDiagnostic { kind: DiagnosticKind::Warning, site: pos(&t), message: ImportMessage::CImportNotNamespaced }]
    );
    p.leave_namespace(previous);
}

#[test]
fn loaded_files_become_imported_blocks() {
    let mut p = ImportProcessor::new(None, String::from("/opt/skye"));
    let t = tok("a.skye", 2);
    let before = p.errors;
    p.import_failed(&tok("b.skye", 0), String::from("/b.skye"), String::from("not found"));
    let block = p.import_loaded(before, &t, vec![Statement::Empty]);
    assert_eq!(
        block,
        Statement::ImportedBlock { statements: skye::list::List::from_vec(vec![Statement::Empty]), source: pos(&t) }
    );
    assert_eq!(p.errors, 1);
    assert_eq!(
        p.diagnostics[1],
        ImportDiagnostic { kind: DiagnosticKind::Note, site: pos(&t), message: ImportMessage::ResultOfImport }
    );
}

#[test]
fn library_paths_on_this_platform() {
    let p = ImportProcessor::new(Some("/home/u"), String::from("/opt/skye"));
    let paths = p.import_paths("core/core");
    assert_eq!(paths.plain, "core/core");
    assert_eq!(paths.extension, None);
    assert!(paths.relative);
    assert_eq!(paths.in_lib_as_skye, "/opt/skye/lib/core/core.skye");
    assert_eq!(paths.in_source, Some(String::from("/home/u/core/core")));
}

fn without_source(plain: &str, extension: Option<&str>, relative: bool) -> ImportPaths {
    let mut p = paths(plain, extension, relative);
    p.in_source = None;
    p.in_source_key = None;
    p
}

#[test]
fn plain_processor_has_no_duplicate_bookkeeping() {
    let mut p = PlainImportProcessor::new(None, String::from("/opt/skye"));
    let t = tok("a.skye", 0);
    assert_eq!(
        p.decide_import(&t, ImportType::Default, without_source("a.skye", Some("skye"), true)),
        ImportAction::Load(String::from("a.skye"))
    );
    assert_eq!(
        p.decide_import(&t, ImportType::Default, without_source("a.skye", Some("skye"), true)),
        ImportAction::Load(String::from("a.skye"))
    );
    p.import_failed(&t, String::from("no such file"));
    assert_eq!(p.errors, 1);
    assert_eq!(
        p.diagnostics,
        vec![ImportDiagnostic {
            kind: DiagnosticKind::Error,
            site: pos(&t),
            message: ImportMessage::CouldNotImportFile { error: String::from("no such file") }
        }]
    );
}

#[test]
fn same_file_by_components_is_a_duplicate() {
    let mut p = ImportProcessor::new(Some("/home/u"), String::from("/opt/skye"));
    let first = p.import_paths("a/b.skye");
    assert_eq!(p.decide_import(&tok("a/b.skye", 0), ImportType::Default, false, first), ImportAction::Load(String::from("/home/u/a/b.skye")));
    let second = p.import_paths("a/./b.skye");
    assert_eq!(p.decide_import(&tok("a/./b.skye", 1), ImportType::Default, false, second), ImportAction::Drop);
}

#[test]
fn import_paths_join_the_parts() {
    let p = ImportProcessor::new(Some("/src"), String::from("/opt/skye"));
    let paths = p.import_paths("std/io");
    assert_eq!(paths.plain, "std/io");
    assert!(paths.relative);
    assert_eq!(paths.in_lib, "/opt/skye/lib/std/io");
    assert_eq!(paths.in_lib_as_skye, "/opt/skye/lib/std/io.skye");
    assert_eq!(paths.in_source, Some(String::from("/src/std/io")));
    assert_eq!(paths.in_lib_key, vec!["/", "opt", "skye", "lib", "std", "io"]);
}

#[test]
fn leading_slash_is_dropped_from_the_plain_path() {
    let p = ImportProcessor::new(None, String::from("/opt/skye"));
    let paths = p.import_paths("/usr/foo");
    assert_eq!(paths.plain, "usr/foo");
    assert!(paths.relative);
    assert_eq!(paths.extension, None);
    assert_eq!(paths.plain_key, vec!["usr", "foo"]);
    assert_eq!(paths.in_lib_as_skye, "/opt/skye/lib/usr/foo.skye");
    assert_eq!(paths.in_lib_as_skye_key, vec!["/", "opt", "skye", "lib", "usr", "foo.skye"]);
}

#[test]
fn extension_is_that_of_the_last_named_part() {
    let p = ImportProcessor::new(None, String::from("/opt/skye"));
    assert_eq!(p.import_paths("a.b/c.skye").extension.as_deref(), Some("skye"));
    assert_eq!(p.import_paths("a.b/c").extension, None);
    assert_eq!(p.import_paths("x/lib.h/").extension.as_deref(), Some("h"));
    assert_eq!(p.import_paths("./a.skye").plain_key, vec![".", "a.skye"]);
}

#[test]
fn parts_are_split_at_each_slash() {
    assert_eq!(skye::import_processor::split_parts("/a//b/"), vec!["", "a", "", "b", ""]);
    assert_eq!(skye::import_processor::split_parts(""), vec![""]);
}
