use skye::ir::{AssignOp, BinaryOp, FnQualifier, TypeKind, VarQualifier};

#[test]
fn qualifiers_are_read_in_any_case() {
    assert_eq!(VarQualifier::from_string("Static"), VarQualifier::Static);
    assert_eq!(VarQualifier::from_string("EXTERN"), VarQualifier::Extern);
    assert_eq!(VarQualifier::from_string("volatile"), VarQualifier::Volatile);
    assert_eq!(FnQualifier::from_string("inline"), FnQualifier::Inline);
    assert_eq!(FnQualifier::from_string("Extern"), FnQualifier::Extern);
}

#[test]
fn unknown_qualifiers_are_refused_by_parse() {
    assert_eq!(VarQualifier::parse("inline"), None);
    assert_eq!(VarQualifier::parse("STATIC"), Some(VarQualifier::Static));
    assert_eq!(FnQualifier::parse("volatile"), None);
    assert_eq!(FnQualifier::parse("Static"), Some(FnQualifier::Static));
}

#[test]
fn operators_as_c_text() {
    assert_eq!(BinaryOp::Add.operator(), "+");
    assert_eq!(BinaryOp::ShiftLeft.operator(), ">>");
    assert_eq!(BinaryOp::NotEqual.operator(), "!=");
    assert_eq!(AssignOp::Plain.operator(), "=");
    assert_eq!(AssignOp::ShiftRight.operator(), "<<=");
    assert_eq!(TypeKind::Union.keyword(), "union");
}
