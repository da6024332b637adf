use skye::ast::{Bits, Expression, MacroBody, Statement};
use skye::tokens::{Token, TokenType};

fn tok(type_: TokenType, lexeme: &str) -> Token {
    Token::new(String::from("src"), String::from("m.skye"), type_, String::from(lexeme), 0, 1, 1)
}

fn var(name: &str) -> Expression {
    Expression::Variable(tok(TokenType::Identifier, name))
}

fn sint(value: i128) -> Expression {
    Expression::SignedIntLiteral { value, tok: tok(TokenType::Other, "n"), bits: Bits::Any }
}

fn plus(l: Expression, r: Expression) -> Expression {
    Expression::Binary { left: Box::new(l), op: tok(TokenType::Plus, "+"), right: Box::new(r) }
}

#[test]
fn variable_is_replaced_in_parentheses() {
    let e = plus(var("x"), var("y"));
    let r = e.replace_variable(&String::from("x"), &sint(3));
    assert_eq!(r, plus(Expression::Grouping(Box::new(sint(3))), var("y")));
}

#[test]
fn groupings_on_the_way_are_dropped() {
    let e = Expression::Grouping(Box::new(var("y")));
    assert_eq!(e.replace_variable(&String::from("x"), &sint(3)), var("y"));
    let e = Expression::Grouping(Box::new(var("x")));
    assert_eq!(e.replace_variable(&String::from("x"), &sint(3)), Expression::Grouping(Box::new(sint(3))));
}

#[test]
fn replaced_variable_no_longer_occurs() {
    let e = plus(var("x"), plus(var("x"), var("z")));
    let r = e.replace_variable(&String::from("x"), &var("w"));
    assert_eq!(
        r,
        plus(
            Expression::Grouping(Box::new(var("w"))),
            plus(Expression::Grouping(Box::new(var("w"))), var("z"))
        )
    );
}

#[test]
fn statements_replace_in_their_expressions() {
    let s = Statement::VarDecl {
        name: tok(TokenType::Identifier, "x"),
        initializer: Some(var("x")),
        type_: None,
        is_const: false,
        qualifiers: skye::list::List::Nil,
    };
    let r = s.replace_variable(&String::from("x"), &sint(1));
    assert_eq!(
        r,
        Statement::VarDecl {
            name: tok(TokenType::Identifier, "x"),
            initializer: Some(Expression::Grouping(Box::new(sint(1)))),
            type_: None,
            is_const: false,
            qualifiers: skye::list::List::Nil,
        }
    );
    let b = MacroBody::Expression(var("x"));
    assert_eq!(b.replace_variable(&String::from("x"), &sint(1)), MacroBody::Expression(Expression::Grouping(Box::new(sint(1)))));
}
