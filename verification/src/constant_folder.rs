//! The basic constant folder: it folds unary operators, subscripts and ternaries on literals,
//! and leaves binary operations, `if` and `switch` statements and imported blocks as they are.

use vstd::prelude::*;

use crate::ast::constant_folder::{fold_all, fold_s, ConstantFolder as Folder};
use crate::ast::Statement;
use crate::diagnostics::{error_count, Diagnostic};

verus! {

/// Folds constants in a syntax tree and collects what it reports on the way.
pub struct ConstantFolder {
    pub errors: usize,
    pub diagnostics: Vec<Diagnostic>,
}

impl ConstantFolder {
    pub fn new() -> (res: Self)
        ensures
            res.errors == 0,
            res.diagnostics@ == Seq::<Diagnostic>::empty(),
    {
        ConstantFolder { errors: 0, diagnostics: Vec::new() }
    }

    /// Forgets the errors counted so far.
    pub fn reset(&mut self)
        ensures
            final(self).errors == 0,
            final(self).diagnostics == old(self).diagnostics,
    {
        self.errors = 0;
    }

    /// Folds each of the statements, first to last.
    pub fn fold(&mut self, statements: &mut Vec<Statement>)
        requires
            forall|i: int| 0 <= i < old(statements)@.len() ==> #[trigger] fold_s(true, old(statements)@[i]).ok,
            old(self).errors + error_count(fold_all(true, old(statements)@).diags) <= usize::MAX,
        ensures
            final(statements)@ == fold_all(true, old(statements)@).val,
            final(statements)@.len() == old(statements)@.len(),
            forall|i: int|
                0 <= i < old(statements)@.len() ==> final(statements)@[i] == #[trigger] fold_s(
                    true,
                    old(statements)@[i],
                ).val,
            final(self).diagnostics@ == old(self).diagnostics@ + fold_all(true, old(statements)@).diags,
            final(self).errors == old(self).errors + error_count(fold_all(true, old(statements)@).diags),
    {
        let mut diagnostics: Vec<Diagnostic> = Vec::new();
        std::mem::swap(&mut diagnostics, &mut self.diagnostics);
        let mut folder = Folder { errors: self.errors, diagnostics };
        folder.fold_statements(true, statements);
        self.errors = folder.errors;
        self.diagnostics = folder.diagnostics;
    }
}

} // verus!
