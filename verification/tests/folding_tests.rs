use skye::ast::constant_folder::ConstantFolder;
use skye::ast::{AstPos, Bits, Expression, Statement};
use skye::constant_folder::ConstantFolder as BasicFolder;
use skye::diagnostics::{Diagnostic, DiagnosticKind, Message, Site};
use skye::list::List;
use skye::tokens::{Token, TokenType};

fn tok(type_: TokenType, lexeme: &str) -> Token {
    Token::new(String::from("src"), String::from("main.skye"), type_, String::from(lexeme), 0, 1, 1)
}

fn sint(value: i128, bits: Bits) -> Expression {
    Expression::SignedIntLiteral { value, tok: tok(TokenType::Other, "n"), bits }
}

fn uint(value: u64, bits: Bits) -> Expression {
    Expression::UnsignedIntLiteral { value, tok: tok(TokenType::Other, "n"), bits }
}

fn binary(left: Expression, op: TokenType, right: Expression) -> Expression {
    Expression::Binary { left: Box::new(left), op: tok(op, "op"), right: Box::new(right) }
}

fn unary(op: TokenType, expr: Expression) -> Expression {
    Expression::Unary { op: tok(op, "op"), expr: Box::new(expr), is_prefix: true }
}

fn list(items: Vec<Expression>) -> List<Expression> {
    List::from_vec(items)
}

fn fold_one(e: Expression) -> (Expression, ConstantFolder) {
    let mut folder = ConstantFolder::new();
    let mut statements = vec![Statement::Expression(e)];
    folder.fold(&mut statements);
    match statements.pop() {
        Some(Statement::Expression(e)) => (e, folder),
        other => panic!("unexpected statement {:?}", other),
    }
}

fn error_at(e: Expression, message: Message) -> Diagnostic {
    Diagnostic { kind: DiagnosticKind::Error, site: Site::Expr(e), message }
}

fn note_at(e: Expression, message: Message) -> Diagnostic {
    Diagnostic { kind: DiagnosticKind::Note, site: Site::Expr(e), message }
}

#[test]
fn signed_addition_folds_in_width() {
    let (e, folder) = fold_one(binary(sint(100, Bits::B8), TokenType::Plus, sint(27, Bits::B8)));
    assert_eq!(e, sint(127, Bits::B8));
    assert_eq!(folder.errors, 0);
    assert!(folder.diagnostics.is_empty());
}

#[test]
fn signed_overflow_is_an_error_and_folds_to_zero() {
    let expr = binary(sint(100, Bits::B8), TokenType::Plus, sint(28, Bits::B8));
    let (e, folder) = fold_one(binary(sint(100, Bits::B8), TokenType::Plus, sint(28, Bits::B8)));
    assert_eq!(e, sint(0, Bits::B8));
    assert_eq!(folder.errors, 1);
    assert_eq!(folder.diagnostics, vec![error_at(expr, Message::OverflowingOperation)]);
}

#[test]
fn subtraction_of_signed_literals() {
    let (e, _) = fold_one(binary(sint(-100, Bits::B16), TokenType::Minus, sint(30000, Bits::B16)));
    assert_eq!(e, sint(-30100, Bits::B16));
    let (e, folder) = fold_one(binary(sint(-100, Bits::B16), TokenType::Minus, sint(32700, Bits::B16)));
    assert_eq!(e, sint(0, Bits::B16));
    assert_eq!(folder.errors, 1);
}

#[test]
fn large_untyped_sum_becomes_unsigned() {
    let big: i128 = 9223372036854775809;
    let (e, folder) = fold_one(binary(sint(big, Bits::Any), TokenType::Plus, sint(1, Bits::Any)));
    assert_eq!(e, uint(9223372036854775810, Bits::Any));
    assert_eq!(folder.errors, 0);
}

#[test]
fn unsigned_plus_signed_checks_the_width() {
    let (e, folder) = fold_one(binary(uint(200, Bits::B8), TokenType::Plus, sint(-100, Bits::Any)));
    assert_eq!(e, uint(100, Bits::B8));
    assert_eq!(folder.errors, 0);
    let (e, folder) = fold_one(binary(uint(200, Bits::B8), TokenType::Plus, sint(100, Bits::Any)));
    assert_eq!(e, uint(0, Bits::B8));
    assert_eq!(folder.errors, 1);
}

#[test]
fn unsigned_subtraction_below_zero_is_an_error() {
    let (e, _) = fold_one(binary(uint(10, Bits::B64), TokenType::Minus, uint(3, Bits::B64)));
    assert_eq!(e, uint(7, Bits::B64));
    let (e, folder) = fold_one(binary(uint(5, Bits::B8), TokenType::Minus, uint(6, Bits::B8)));
    assert_eq!(e, uint(0, Bits::B8));
    assert_eq!(folder.errors, 1);
}

#[test]
fn size_typed_operands_are_left_alone() {
    let expr = binary(uint(1, Bits::Bsz), TokenType::Plus, uint(2, Bits::Bsz));
    let (e, folder) = fold_one(binary(uint(1, Bits::Bsz), TokenType::Plus, uint(2, Bits::Bsz)));
    assert_eq!(e, expr);
    assert_eq!(folder.errors, 0);
}

#[test]
fn other_operators_are_not_folded() {
    let expr = binary(sint(6, Bits::Any), TokenType::Star, sint(7, Bits::Any));
    let (e, _) = fold_one(binary(sint(6, Bits::Any), TokenType::Star, sint(7, Bits::Any)));
    assert_eq!(e, expr);
}

#[test]
fn unary_operators_on_literals() {
    assert_eq!(fold_one(unary(TokenType::Minus, sint(5, Bits::Any))).0, sint(-5, Bits::Any));
    assert_eq!(fold_one(unary(TokenType::Tilde, sint(0, Bits::B8))).0, sint(-1, Bits::B8));
    assert_eq!(fold_one(unary(TokenType::Tilde, uint(0, Bits::B8))).0, uint(255, Bits::B8));
    assert_eq!(fold_one(unary(TokenType::Plus, sint(3, Bits::B32))).0, sint(3, Bits::B32));
    assert_eq!(
        fold_one(unary(TokenType::Bang, sint(0, Bits::B32))).0,
        Expression::UnsignedIntLiteral { value: 1, tok: tok(TokenType::Other, "n"), bits: Bits::B8 }
    );
    assert_eq!(
        fold_one(unary(TokenType::Bang, uint(9, Bits::B32))).0,
        Expression::UnsignedIntLiteral { value: 0, tok: tok(TokenType::Other, "n"), bits: Bits::B8 }
    );
}

#[test]
fn negating_an_unsigned_literal_is_an_error() {
    let expr = unary(TokenType::Minus, uint(5, Bits::B32));
    let (e, folder) = fold_one(unary(TokenType::Minus, uint(5, Bits::B32)));
    assert_eq!(e, expr);
    assert_eq!(folder.errors, 1);
    assert_eq!(
        folder.diagnostics,
        vec![
            error_at(unary(TokenType::Minus, uint(5, Bits::B32)), Message::NegatedUnsigned),
            note_at(unary(TokenType::Minus, uint(5, Bits::B32)), Message::WillOverflow),
        ]
    );
}

#[test]
fn negating_a_float_flips_its_sign() {
    let lit = Expression::FloatLiteral { value: 1.5f64.to_bits(), tok: tok(TokenType::Other, "1.5"), bits: Bits::Any };
    let (e, _) = fold_one(unary(TokenType::Minus, lit));
    assert_eq!(
        e,
        Expression::FloatLiteral { value: (-1.5f64).to_bits(), tok: tok(TokenType::Other, "1.5"), bits: Bits::Any }
    );
}

#[test]
fn ternary_with_literal_condition_picks_a_branch() {
    let t = Expression::Ternary {
        tok: tok(TokenType::Question, "?"),
        condition: Box::new(sint(1, Bits::Any)),
        then_expr: Box::new(sint(10, Bits::Any)),
        else_expr: Box::new(sint(20, Bits::Any)),
    };
    assert_eq!(fold_one(t).0, sint(10, Bits::Any));
    let f = Expression::Ternary {
        tok: tok(TokenType::Question, "?"),
        condition: Box::new(uint(0, Bits::Any)),
        then_expr: Box::new(sint(10, Bits::Any)),
        else_expr: Box::new(binary(sint(1, Bits::Any), TokenType::Plus, sint(1, Bits::Any))),
    };
    assert_eq!(fold_one(f).0, sint(2, Bits::Any));
}

fn array() -> Expression {
    Expression::ArrayLiteral {
        opening_brace: tok(TokenType::Other, "{"),
        items: list(vec![sint(10, Bits::Any), sint(20, Bits::Any), sint(30, Bits::Any)]),
    }
}

fn subscript(index: Expression) -> Expression {
    Expression::Subscript { subscripted: Box::new(array()), paren: tok(TokenType::Other, "["), args: list(vec![index]) }
}

#[test]
fn literal_subscript_selects_the_item() {
    assert_eq!(fold_one(subscript(uint(1, Bits::Any))).0, sint(20, Bits::Any));
}

#[test]
fn subscript_past_the_end_is_an_error() {
    let (e, folder) = fold_one(subscript(uint(5, Bits::Any)));
    assert_eq!(e, subscript(uint(5, Bits::Any)));
    assert_eq!(folder.errors, 1);
    assert_eq!(
        folder.diagnostics,
        vec![
            error_at(uint(5, Bits::Any), Message::IndexOutOfBounds { index: 5, length: 3 }),
            note_at(array(), Message::CollectionLength(3)),
        ]
    );
}

#[test]
fn negative_subscript_is_an_error() {
    let (e, folder) = fold_one(subscript(sint(-1, Bits::Any)));
    assert_eq!(e, subscript(sint(-1, Bits::Any)));
    assert_eq!(folder.diagnostics, vec![error_at(sint(-1, Bits::Any), Message::NegativeIndex)]);
}

#[test]
fn errors_inside_a_macro_expansion_get_a_note() {
    let source = AstPos::new(String::from("src"), String::from("main.skye"), 4, 9, 2);
    let inner = binary(sint(127, Bits::B8), TokenType::Plus, sint(1, Bits::B8));
    let e = Expression::InMacro { inner: Box::new(inner), source: AstPos::new(String::from("src"), String::from("main.skye"), 4, 9, 2) };
    let (folded, folder) = fold_one(e);
    assert_eq!(folded, Expression::InMacro { inner: Box::new(sint(0, Bits::B8)), source: AstPos::new(String::from("src"), String::from("main.skye"), 4, 9, 2) });
    assert_eq!(folder.errors, 1);
    assert_eq!(folder.diagnostics.len(), 2);
    assert_eq!(folder.diagnostics[1], Diagnostic { kind: DiagnosticKind::Note, site: Site::Pos(source), message: Message::FromMacroExpansion });
}

#[test]
fn if_with_literal_condition_keeps_one_branch() {
    let mut folder = ConstantFolder::new();
    let mut statements = vec![
        Statement::If {
            kw: tok(TokenType::Other, "if"),
            condition: uint(0, Bits::Any),
            then_branch: Box::new(Statement::Expression(sint(1, Bits::Any))),
            else_branch: None,
        },
        Statement::If {
            kw: tok(TokenType::Other, "if"),
            condition: binary(sint(1, Bits::Any), TokenType::Minus, sint(1, Bits::Any)),
            then_branch: Box::new(Statement::Expression(sint(1, Bits::Any))),
            else_branch: Some(Box::new(Statement::Expression(sint(2, Bits::Any)))),
        },
    ];
    folder.fold(&mut statements);
    assert_eq!(statements, vec![Statement::Empty, Statement::Expression(sint(2, Bits::Any))]);
}

#[test]
fn reset_forgets_the_count_only() {
    let (_, mut folder) = fold_one(binary(sint(100, Bits::B8), TokenType::Plus, sint(28, Bits::B8)));
    assert_eq!(folder.errors, 1);
    folder.reset();
    assert_eq!(folder.errors, 0);
    assert_eq!(folder.diagnostics.len(), 1);
}

#[test]
fn basic_folder_leaves_binary_operations_and_ifs() {
    let mut folder = BasicFolder::new();
    let mut statements = vec![
        Statement::Expression(binary(sint(1, Bits::Any), TokenType::Plus, sint(2, Bits::Any))),
        Statement::If {
            kw: tok(TokenType::Other, "if"),
            condition: uint(0, Bits::Any),
            then_branch: Box::new(Statement::Expression(sint(1, Bits::Any))),
            else_branch: None,
        },
        Statement::Expression(unary(TokenType::Tilde, uint(0, Bits::B8))),
    ];
    folder.fold(&mut statements);
    assert_eq!(statements[0], Statement::Expression(binary(sint(1, Bits::Any), TokenType::Plus, sint(2, Bits::Any))));
    assert!(matches!(statements[1], Statement::If { .. }));
    assert_eq!(statements[2], Statement::Expression(uint(u64::MAX, Bits::B8)));
    assert_eq!(folder.errors, 0);
}

#[test]
fn basic_folder_reports_the_wrapped_value() {
    let mut folder = BasicFolder::new();
    let mut statements = vec![Statement::Expression(unary(TokenType::Minus, uint(5, Bits::B64)))];
    folder.fold(&mut statements);
    assert_eq!(folder.errors, 1);
    assert_eq!(
        folder.diagnostics[1],
        note_at(unary(TokenType::Minus, uint(5, Bits::B64)), Message::WillOverflowTo(u64::MAX - 4))
    );
    folder.reset();
    assert_eq!(folder.errors, 0);
}
