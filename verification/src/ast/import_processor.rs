//! The syntax tree's import processor: for each `import` it finds the file to load, with no
//! bookkeeping of earlier imports or namespaces. Reading and parsing the files is left to the
//! caller, which hands the results back.

use vstd::prelude::*;

use crate::ast::{spec_tok_pos, tok_pos, AstPos, ImportType, Statement};
use crate::diagnostics::DiagnosticKind;
use crate::import_processor::{
    at_token, import_paths, key_view, path_components, paths_made, import_result_note, resolved, ImportAction, ImportDiagnostic,
    ImportMessage, ImportPaths,
};
use crate::list::List;
use crate::tokens::Token;
use vstd::string::StringExecFns;

verus! {

pub struct ImportProcessor {
    source_path: Option<String>,
    skye_path: String,
    source_key: Option<Vec<String>>,
    skye_key: Vec<String>,
    pub errors: usize,
    pub diagnostics: Vec<ImportDiagnostic>,
}

impl ImportProcessor {
    /// The directory of the file being compiled, if it has one.
    pub closed spec fn source_dir(&self) -> Option<Seq<char>> {
        match self.source_path {
            Some(p) => Some(p@),
            None => None,
        }
    }

    /// The directory of the compiler's own files.
    pub closed spec fn home(&self) -> Seq<char> {
        self.skye_path@
    }

    /// The components of the directory of the compiler's own files.
    pub closed spec fn home_components(&self) -> Seq<Seq<char>> {
        key_view(self.skye_key@)
    }

    /// The components of the directory of the file being compiled, if it has one.
    pub closed spec fn source_components(&self) -> Option<Seq<Seq<char>>> {
        match self.source_key {
            Some(k) => Some(key_view(k@)),
            None => None,
        }
    }

    /// The errors counted so far.
    pub closed spec fn errors_counted(&self) -> usize {
        self.errors
    }

    /// What has been reported so far.
    pub closed spec fn reports(&self) -> Seq<ImportDiagnostic> {
        self.diagnostics@
    }

    pub fn new(path: Option<&str>, skye_path: String) -> (res: Self)
        ensures
            res.source_dir() == (match path {
                Some(p) => Some(p@),
                None => None::<Seq<char>>,
            }),
            res.home() == skye_path@,
            res.source_components() is Some <==> path is Some,
            res.errors_counted() == 0,
            res.reports() == Seq::<ImportDiagnostic>::empty(),
    {
        let skye_key = path_components(skye_path.as_str());
        let source_key = match path {
            Some(p) => Some(path_components(p)),
            None => None,
        };
        ImportProcessor {
            skye_path,
            skye_key,
            source_key,
            source_path: match path {
                Some(p) => Some(String::from_str(p)),
                None => None,
            },
            errors: 0,
            diagnostics: Vec::new(),
        }
    }

    /// The places an import's path may stand for.
    pub fn import_paths(&self, lexeme: &str) -> (res: ImportPaths)
        ensures
            paths_made(res, lexeme@, self.home(), self.source_dir(), self.home_components(), self.source_components()),
    {
        import_paths(lexeme, self.skye_path.as_str(), &self.source_path, &self.skye_key, &self.source_key)
    }

    fn report(&mut self, d: ImportDiagnostic)
        requires
            d.kind == DiagnosticKind::Error ==> old(self).errors < usize::MAX,
        ensures
            final(self).diagnostics@ == old(self).diagnostics@.push(d),
            final(self).errors == old(self).errors + if d.kind == DiagnosticKind::Error { 1nat } else { 0nat },
            final(self).source_path == old(self).source_path,
            final(self).skye_path == old(self).skye_path,
    {
        if d.kind == DiagnosticKind::Error {
            self.errors = self.errors + 1;
        }
        self.diagnostics.push(d);
    }

    /// Decides what to do with the import of `tok` whose path stands for `paths`: load a file of
    /// the language, keep a C import, or report a path that has no extension and is not relative.
    pub fn decide_import(&mut self, tok: &Token, type_: ImportType, paths: ImportPaths) -> (res: ImportAction)
        requires
            resolved(paths, type_) is None ==> old(self).errors_counted() < usize::MAX,
        ensures
            match resolved(paths, type_) {
                None => {
                    &&& res is Reject
                    &&& final(self).reports() == old(self).reports() + seq![
                        at_token(DiagnosticKind::Error, *tok, ImportMessage::MissingExtension),
                        at_token(DiagnosticKind::Note, *tok, ImportMessage::AddExtension)
                    ]
                    &&& final(self).errors_counted() == old(self).errors_counted() + 1
                },
                Some((path, skye)) => {
                    &&& (if skye {
                        res matches ImportAction::Load(p) && p@ == path
                    } else {
                        res is Keep
                    })
                    &&& final(self).reports() == old(self).reports()
                    &&& final(self).errors_counted() == old(self).errors_counted()
                },
            },
            final(self).source_dir() == old(self).source_dir(),
            final(self).home() == old(self).home(),
    {
        let ghost start = self.diagnostics@;
        let resolved_path: Option<(String, bool)> = match &paths.extension {
            Some(ext) => {
                let path = if type_ == ImportType::Lib {
                    paths.in_lib.clone()
                } else if paths.relative && paths.in_source.is_some() && type_ != ImportType::Ang {
                    match &paths.in_source {
                        Some(p) => p.clone(),
                        None => paths.plain.clone(),
                    }
                } else {
                    paths.plain.clone()
                };
                Some((path, crate::codegen::str_equal(ext.as_str(), "skye")))
            },
            None => if paths.relative {
                Some((paths.in_lib_as_skye.clone(), true))
            } else {
                None
            },
        };
        match resolved_path {
            None => {
                self.report(ImportDiagnostic {
                    kind: DiagnosticKind::Error,
                    site: tok_pos(tok),
                    message: ImportMessage::MissingExtension,
                });
                self.report(ImportDiagnostic {
                    kind: DiagnosticKind::Note,
                    site: tok_pos(tok),
                    message: ImportMessage::AddExtension,
                });
                proof {
                    assert(self.diagnostics@ =~= start + seq![
                        at_token(DiagnosticKind::Error, *tok, ImportMessage::MissingExtension),
                        at_token(DiagnosticKind::Note, *tok, ImportMessage::AddExtension)
                    ]);
                }
                ImportAction::Reject
            },
            Some((path, skye)) => if skye {
                ImportAction::Load(path)
            } else {
                ImportAction::Keep
            },
        }
    }

    /// The import of `import_tok`, whose file's statements were loaded and processed, becomes
    /// the block of those statements.
    pub fn import_loaded(&mut self, import_tok: &Token, statements: Vec<Statement>) -> (res: Statement)
        ensures
            res matches Statement::ImportedBlock { statements: l, source } && l.seq() == statements@ && source
                == spec_tok_pos(*import_tok),
    {
        Statement::ImportedBlock { statements: List::from_vec(statements), source: tok_pos(import_tok) }
    }

    /// Reports that the file imported by `import_tok` could not be loaded.
    pub fn import_failed(&mut self, import_tok: &Token, error: String)
        requires
            old(self).errors_counted() < usize::MAX,
        ensures
            final(self).reports() == old(self).reports().push(
                at_token(DiagnosticKind::Error, *import_tok, ImportMessage::CouldNotImportFile { error }),
            ),
            final(self).errors_counted() == old(self).errors_counted() + 1,
            final(self).source_dir() == old(self).source_dir(),
            final(self).home() == old(self).home(),
    {
        self.report(ImportDiagnostic {
            kind: DiagnosticKind::Error,
            site: tok_pos(import_tok),
            message: ImportMessage::CouldNotImportFile { error },
        });
    }

    /// After the statements of an imported block were processed: a note at the block's source
    /// when errors were counted since there were `errors_before`.
    pub fn block_processed(&mut self, errors_before: usize, source: &AstPos)
        ensures
            final(self).reports() == old(self).reports() + import_result_note(
                errors_before,
                old(self).errors_counted(),
                *source,
            ),
            final(self).errors_counted() == old(self).errors_counted(),
            final(self).source_dir() == old(self).source_dir(),
            final(self).home() == old(self).home(),
    {
        let ghost start = self.diagnostics@;
        if self.errors != errors_before {
            self.report(
                ImportDiagnostic { kind: DiagnosticKind::Note, site: source.clone(), message: ImportMessage::ResultOfImport },
            );
        } else {
            assert(self.diagnostics@ =~= start + Seq::<ImportDiagnostic>::empty());
        }
    }
}

} // verus!
