//! What the compiler's passes report: errors and notes, each about a place in the source.

use vstd::prelude::*;

use crate::ast::{AstPos, Expression};

verus! {

#[derive(Debug, Clone, Copy, PartialEq, Eq, Structural)]
pub enum DiagnosticKind {
    Error,
    Warning,
    Note,
}

/// What a diagnostic says.
#[derive(Debug, Clone, Copy, PartialEq, Eq, Structural)]
pub enum Message {
    /// "Cannot apply '-' operator to unsigned integer"
    NegatedUnsigned,
    /// "This operation will overflow"
    WillOverflow,
    /// "This operation will overflow to {value}"
    WillOverflowTo(u64),
    /// "Array indices cannot be negative"
    NegativeIndex,
    /// "Index {index} is out of bounds for length {length}"
    IndexOutOfBounds { index: usize, length: usize },
    /// "This collection has length {length}"
    CollectionLength(usize),
    /// "Cannot perform overflowing operation"
    OverflowingOperation,
    /// "This error is a result of this macro expansion"
    FromMacroExpansion,
    /// "The error(s) were a result of this import"
    FromImport,
}

/// Where a diagnostic points: at the span of an expression or at a given span.
#[derive(Debug, PartialEq)]
pub enum Site {
    Expr(Expression),
    Pos(AstPos),
}

#[derive(Debug, PartialEq)]
pub struct Diagnostic {
    pub kind: DiagnosticKind,
    pub site: Site,
    pub message: Message,
}

/// The number of errors among the diagnostics.
pub open spec fn error_count(diags: Seq<Diagnostic>) -> nat
    decreases diags.len(),
{
    if diags.len() == 0 {
        0
    } else {
        error_count(diags.drop_last()) + if diags.last().kind == DiagnosticKind::Error {
            1nat
        } else {
            0nat
        }
    }
}

pub(crate) proof fn lemma_error_count_append(a: Seq<Diagnostic>, b: Seq<Diagnostic>)
    ensures
        error_count(a + b) == error_count(a) + error_count(b),
    decreases b.len(),
{
    if b.len() == 0 {
        assert(a + b =~= a);
    } else {
        lemma_error_count_append(a, b.drop_last());
        assert((a + b).drop_last() =~= a + b.drop_last());
        assert((a + b).last() == b.last());
    }
}

pub open spec fn error_at(e: Expression, message: Message) -> Diagnostic {
    Diagnostic { kind: DiagnosticKind::Error, site: Site::Expr(e), message }
}

pub open spec fn note_at(e: Expression, message: Message) -> Diagnostic {
    Diagnostic { kind: DiagnosticKind::Note, site: Site::Expr(e), message }
}

pub open spec fn note_at_pos(p: AstPos, message: Message) -> Diagnostic {
    Diagnostic { kind: DiagnosticKind::Note, site: Site::Pos(p), message }
}

} // verus!
