//! The intermediate representation's qualifiers and operators, and the C text of the operators.

use vstd::prelude::*;

use crate::codegen::str_equal;

verus! {

/// The lowercase form of a string, as Unicode's case mapping gives it.
pub uninterp spec fn lowercase(s: Seq<char>) -> Seq<char>;

/// `str::to_lowercase`: its result is `lowercase` of the argument.
#[verifier::external_body]
fn to_lowercase(s: &str) -> (res: String)
    ensures
        res@ == lowercase(s@),
{
    s.to_lowercase()
}

#[derive(Clone, Copy, Debug, PartialEq, Eq, Structural)]
pub enum VarQualifier {
    Static,
    Extern,
    Volatile,
}

/// The variable qualifier that a lowercase word names.
pub open spec fn var_qualifier_named(word: Seq<char>) -> Option<VarQualifier> {
    if word == "static"@ {
        Some(VarQualifier::Static)
    } else if word == "extern"@ {
        Some(VarQualifier::Extern)
    } else if word == "volatile"@ {
        Some(VarQualifier::Volatile)
    } else {
        None
    }
}

impl VarQualifier {
    /// The qualifier that the word names, in any case.
    pub fn from_string(qualifier: &str) -> (res: Self)
        requires
            var_qualifier_named(lowercase(qualifier@)) is Some,
        ensures
            Some(res) == var_qualifier_named(lowercase(qualifier@)),
    {
        let word = to_lowercase(qualifier);
        if str_equal(word.as_str(), "static") {
            VarQualifier::Static
        } else if str_equal(word.as_str(), "extern") {
            VarQualifier::Extern
        } else {
            VarQualifier::Volatile
        }
    }

    /// The qualifier that the word names, in any case, if it names one.
    pub fn parse(qualifier: &str) -> (res: Option<Self>)
        ensures
            res == var_qualifier_named(lowercase(qualifier@)),
    {
        let word = to_lowercase(qualifier);
        let s = word.as_str();
        if str_equal(s, "static") || str_equal(s, "extern") || str_equal(s, "volatile") {
            Some(VarQualifier::from_string(qualifier))
        } else {
            None
        }
    }
}

#[derive(Clone, Copy, Debug, PartialEq, Eq, Structural)]
pub enum FnQualifier {
    Static,
    Extern,
    Inline,
}

/// The function qualifier that a lowercase word names.
pub open spec fn fn_qualifier_named(word: Seq<char>) -> Option<FnQualifier> {
    if word == "static"@ {
        Some(FnQualifier::Static)
    } else if word == "extern"@ {
        Some(FnQualifier::Extern)
    } else if word == "inline"@ {
        Some(FnQualifier::Inline)
    } else {
        None
    }
}

impl FnQualifier {
    /// The qualifier that the word names, in any case.
    pub fn from_string(qualifier: &str) -> (res: Self)
        requires
            fn_qualifier_named(lowercase(qualifier@)) is Some,
        ensures
            Some(res) == fn_qualifier_named(lowercase(qualifier@)),
    {
        let word = to_lowercase(qualifier);
        if str_equal(word.as_str(), "static") {
            FnQualifier::Static
        } else if str_equal(word.as_str(), "extern") {
            FnQualifier::Extern
        } else {
            FnQualifier::Inline
        }
    }

    /// The qualifier that the word names, in any case, if it names one.
    pub fn parse(qualifier: &str) -> (res: Option<Self>)
        ensures
            res == fn_qualifier_named(lowercase(qualifier@)),
    {
        let word = to_lowercase(qualifier);
        let s = word.as_str();
        if str_equal(s, "static") || str_equal(s, "extern") || str_equal(s, "inline") {
            Some(FnQualifier::from_string(qualifier))
        } else {
            None
        }
    }
}

#[derive(Clone, Copy, Debug, PartialEq, Eq, Structural)]
pub enum TypeKind {
    Struct,
    Enum,
    Union,
}

impl TypeKind {
    /// The C keyword that introduces a type of this kind.
    pub fn keyword(self) -> (res: &'static str)
        ensures
            res@ == (match self {
                TypeKind::Struct => "struct"@,
                TypeKind::Enum => "enum"@,
                TypeKind::Union => "union"@,
            }),
    {
        match self {
            TypeKind::Struct => "struct",
            TypeKind::Enum => "enum",
            TypeKind::Union => "union",
        }
    }
}

#[derive(Clone, Copy, Debug, PartialEq, Eq, Structural)]
pub enum BinaryOp {
    Add,
    Subtract,
    Divide,
    Multiply,
    Modulo,
    ShiftLeft,
    ShiftRight,
    BitwiseXor,
    BitwiseOr,
    BitwiseAnd,
    Greater,
    GreaterEqual,
    Less,
    LessEqual,
    Equal,
    NotEqual,
}

/// The C operator that the generator writes for a binary operation (the shifts come out
/// swapped: `ShiftLeft` as `>>` and `ShiftRight` as `<<`).
pub open spec fn binary_operator_text(op: BinaryOp) -> Seq<char> {
    match op {
        BinaryOp::Add => "+"@,
        BinaryOp::Subtract => "-"@,
        BinaryOp::Divide => "/"@,
        BinaryOp::Multiply => "*"@,
        BinaryOp::Modulo => "%"@,
        BinaryOp::ShiftLeft => ">>"@,
        BinaryOp::ShiftRight => "<<"@,
        BinaryOp::BitwiseXor => "^"@,
        BinaryOp::BitwiseOr => "|"@,
        BinaryOp::BitwiseAnd => "&"@,
        BinaryOp::Greater => ">"@,
        BinaryOp::GreaterEqual => ">="@,
        BinaryOp::Less => "<"@,
        BinaryOp::LessEqual => "<="@,
        BinaryOp::Equal => "=="@,
        BinaryOp::NotEqual => "!="@,
    }
}

impl BinaryOp {
    pub fn operator(self) -> (res: &'static str)
        ensures
            res@ == binary_operator_text(self),
    {
        match self {
            BinaryOp::Add => "+",
            BinaryOp::Subtract => "-",
            BinaryOp::Divide => "/",
            BinaryOp::Multiply => "*",
            BinaryOp::Modulo => "%",
            BinaryOp::ShiftLeft => ">>",
            BinaryOp::ShiftRight => "<<",
            BinaryOp::BitwiseXor => "^",
            BinaryOp::BitwiseOr => "|",
            BinaryOp::BitwiseAnd => "&",
            BinaryOp::Greater => ">",
            BinaryOp::GreaterEqual => ">=",
            BinaryOp::Less => "<",
            BinaryOp::LessEqual => "<=",
            BinaryOp::Equal => "==",
            BinaryOp::NotEqual => "!=",
        }
    }
}

#[derive(Clone, Copy, Debug, PartialEq, Eq, Structural)]
pub enum AssignOp {
    Plain,
    Add,
    Subtract,
    Divide,
    Multiply,
    Modulo,
    ShiftLeft,
    ShiftRight,
    BitwiseXor,
    BitwiseOr,
    BitwiseAnd,
}

/// The C assignment operator that the generator writes (the shifts come out swapped, as for
/// the binary operators).
pub open spec fn assign_operator_text(op: AssignOp) -> Seq<char> {
    match op {
        AssignOp::Plain => "="@,
        AssignOp::Add => "+="@,
        AssignOp::Subtract => "-="@,
        AssignOp::Divide => "/="@,
        AssignOp::Multiply => "*="@,
        AssignOp::Modulo => "%="@,
        AssignOp::ShiftLeft => ">>="@,
        AssignOp::ShiftRight => "<<="@,
        AssignOp::BitwiseXor => "^="@,
        AssignOp::BitwiseOr => "|="@,
        AssignOp::BitwiseAnd => "&="@,
    }
}

impl AssignOp {
    pub fn operator(self) -> (res: &'static str)
        ensures
            res@ == assign_operator_text(self),
    {
        match self {
            AssignOp::Plain => "=",
            AssignOp::Add => "+=",
            AssignOp::Subtract => "-=",
            AssignOp::Divide => "/=",
            AssignOp::Multiply => "*=",
            AssignOp::Modulo => "%=",
            AssignOp::ShiftLeft => ">>=",
            AssignOp::ShiftRight => "<<=",
            AssignOp::BitwiseXor => "^=",
            AssignOp::BitwiseOr => "|=",
            AssignOp::BitwiseAnd => "&=",
        }
    }
}

} // verus!
