//! Substitution of an expression for a variable, as macro expansion uses it: every occurrence of
//! the variable becomes the expression in parentheses, and grouping and macro wrappers met on
//! the way are dropped.

use vstd::prelude::*;

use crate::ast::{
    clone_opt_expr, clone_opt_token, clone_tokens, EnumVariant, Expression,
    FunctionParam, Generic, MacroBody, Statement, StructField, SwitchCase,
};
use crate::list::List;
use crate::tokens::Token;

verus! {

// ---------------------------------------------------------------------------------------------
// What substitution gives.
// ---------------------------------------------------------------------------------------------

pub open spec fn replaced_expr(e: Expression, name: Seq<char>, r: Expression) -> Expression
    decreases e,
{
    match e {
        Expression::Grouping(inner) => replaced_expr(*inner, name, r),
        Expression::InMacro { inner, .. } => replaced_expr(*inner, name, r),
        Expression::Variable(tok) => if tok.lexeme@ == name {
            Expression::Grouping(Box::new(r))
        } else {
            e
        },
        Expression::Binary { left, op, right } => Expression::Binary {
            left: Box::new(replaced_expr(*left, name, r)),
            op,
            right: Box::new(replaced_expr(*right, name, r)),
        },
        Expression::Unary { op, expr, is_prefix } => Expression::Unary {
            op,
            expr: Box::new(replaced_expr(*expr, name, r)),
            is_prefix,
        },
        Expression::Assign { target, op, value } => Expression::Assign {
            target: Box::new(replaced_expr(*target, name, r)),
            op,
            value: Box::new(replaced_expr(*value, name, r)),
        },
        Expression::Ternary { tok, condition, then_expr, else_expr } => Expression::Ternary {
            tok,
            condition: Box::new(replaced_expr(*condition, name, r)),
            then_expr: Box::new(replaced_expr(*then_expr, name, r)),
            else_expr: Box::new(replaced_expr(*else_expr, name, r)),
        },
        Expression::Call(callee, paren, args, unpack) => Expression::Call(
            Box::new(replaced_expr(*callee, name, r)),
            paren,
            replaced_exprs(args, name, r),
            unpack,
        ),
        Expression::FnPtr { kw, return_type, params } => Expression::FnPtr {
            kw,
            return_type: Box::new(replaced_expr(*return_type, name, r)),
            params: replaced_params(params, name, r),
        },
        Expression::CompoundLiteral { type_, closing_brace, fields } => Expression::CompoundLiteral {
            type_: Box::new(replaced_expr(*type_, name, r)),
            closing_brace,
            fields: replaced_fields(fields, name, r),
        },
        Expression::Subscript { subscripted, paren, args } => Expression::Subscript {
            subscripted: Box::new(replaced_expr(*subscripted, name, r)),
            paren,
            args: replaced_exprs(args, name, r),
        },
        Expression::Get(object, get_name) => Expression::Get(Box::new(replaced_expr(*object, name, r)), get_name),
        Expression::StaticGet(object, get_name, gets_macro) => Expression::StaticGet(
            match object {
                Some(o) => Some(Box::new(replaced_expr(*o, name, r))),
                None => None,
            },
            get_name,
            gets_macro,
        ),
        Expression::Slice { opening_brace, items } => Expression::Slice {
            opening_brace,
            items: replaced_exprs(items, name, r),
        },
        Expression::ArrayLiteral { opening_brace, items } => Expression::ArrayLiteral {
            opening_brace,
            items: replaced_exprs(items, name, r),
        },
        Expression::MacroExpandedStatements { inner, source } => Expression::MacroExpandedStatements {
            inner: replaced_stmts(inner, name, r),
            source,
        },
        Expression::Array { opening_brace, item, size } => Expression::Array {
            opening_brace,
            item: Box::new(replaced_expr(*item, name, r)),
            size: Box::new(replaced_expr(*size, name, r)),
        },
        _ => e,
    }
}

pub open spec fn replaced_exprs(l: List<Expression>, name: Seq<char>, r: Expression) -> List<Expression>
    decreases l,
{
    match l {
        List::Nil => List::Nil,
        List::Cons(h, t) => List::Cons(Box::new(replaced_expr(*h, name, r)), Box::new(replaced_exprs(*t, name, r))),
    }
}

pub open spec fn replaced_opt_expr(o: Option<Expression>, name: Seq<char>, r: Expression) -> Option<Expression>
    decreases o,
{
    match o {
        Some(e) => Some(replaced_expr(e, name, r)),
        None => None,
    }
}

pub open spec fn replaced_opt_exprs(o: Option<List<Expression>>, name: Seq<char>, r: Expression) -> Option<
    List<Expression>,
>
    decreases o,
{
    match o {
        Some(l) => Some(replaced_exprs(l, name, r)),
        None => None,
    }
}

pub open spec fn replaced_params(l: List<FunctionParam>, name: Seq<char>, r: Expression) -> List<FunctionParam>
    decreases l,
{
    match l {
        List::Nil => List::Nil,
        List::Cons(h, t) => List::Cons(
            Box::new(FunctionParam { name: h.name, type_: replaced_expr(h.type_, name, r), is_const: h.is_const }),
            Box::new(replaced_params(*t, name, r)),
        ),
    }
}

pub open spec fn replaced_fields(l: List<StructField>, name: Seq<char>, r: Expression) -> List<StructField>
    decreases l,
{
    match l {
        List::Nil => List::Nil,
        List::Cons(h, t) => List::Cons(
            Box::new(
                StructField {
                    name: h.name,
                    expr: replaced_expr(h.expr, name, r),
                    bits: replaced_opt_expr(h.bits, name, r),
                    is_const: h.is_const,
                },
            ),
            Box::new(replaced_fields(*t, name, r)),
        ),
    }
}

/// The default values of enum variants are kept as they are.
pub open spec fn replaced_variants(l: List<EnumVariant>, name: Seq<char>, r: Expression) -> List<EnumVariant>
    decreases l,
{
    match l {
        List::Nil => List::Nil,
        List::Cons(h, t) => List::Cons(
            Box::new(EnumVariant { name: h.name, type_: replaced_expr(h.type_, name, r), default: h.default }),
            Box::new(replaced_variants(*t, name, r)),
        ),
    }
}

pub open spec fn replaced_generics(l: List<Generic>, name: Seq<char>, r: Expression) -> List<Generic>
    decreases l,
{
    match l {
        List::Nil => List::Nil,
        List::Cons(h, t) => List::Cons(
            Box::new(
                Generic {
                    name: h.name,
                    bounds: replaced_opt_expr(h.bounds, name, r),
                    default: replaced_opt_expr(h.default, name, r),
                },
            ),
            Box::new(replaced_generics(*t, name, r)),
        ),
    }
}

pub open spec fn replaced_cases(l: List<SwitchCase>, name: Seq<char>, r: Expression) -> List<SwitchCase>
    decreases l,
{
    match l {
        List::Nil => List::Nil,
        List::Cons(h, t) => List::Cons(
            Box::new(
                SwitchCase { cases: replaced_opt_exprs(h.cases, name, r), code: replaced_stmts(h.code, name, r) },
            ),
            Box::new(replaced_cases(*t, name, r)),
        ),
    }
}

pub open spec fn replaced_stmts(l: List<Statement>, name: Seq<char>, r: Expression) -> List<Statement>
    decreases l,
{
    match l {
        List::Nil => List::Nil,
        List::Cons(h, t) => List::Cons(Box::new(replaced_stmt(*h, name, r)), Box::new(replaced_stmts(*t, name, r))),
    }
}

pub open spec fn replaced_opt_stmts(o: Option<List<Statement>>, name: Seq<char>, r: Expression) -> Option<
    List<Statement>,
>
    decreases o,
{
    match o {
        Some(l) => Some(replaced_stmts(l, name, r)),
        None => None,
    }
}

pub open spec fn replaced_box_stmt(o: Option<Box<Statement>>, name: Seq<char>, r: Expression) -> Option<
    Box<Statement>,
>
    decreases o,
{
    match o {
        Some(s) => Some(Box::new(replaced_stmt(*s, name, r))),
        None => None,
    }
}

pub open spec fn replaced_body(b: MacroBody, name: Seq<char>, r: Expression) -> MacroBody
    decreases b,
{
    match b {
        MacroBody::Binding(e) => MacroBody::Binding(replaced_expr(e, name, r)),
        MacroBody::Expression(e) => MacroBody::Expression(replaced_expr(e, name, r)),
        MacroBody::Block(l) => MacroBody::Block(replaced_stmts(l, name, r)),
    }
}

pub open spec fn replaced_stmt(s: Statement, name: Seq<char>, r: Expression) -> Statement
    decreases s,
{
    match s {
        Statement::Expression(e) => Statement::Expression(replaced_expr(e, name, r)),
        Statement::VarDecl { name: var_name, initializer, type_, is_const, qualifiers } => Statement::VarDecl {
            name: var_name,
            initializer: replaced_opt_expr(initializer, name, r),
            type_: replaced_opt_expr(type_, name, r),
            is_const,
            qualifiers,
        },
        Statement::Block(kw, body) => Statement::Block(kw, replaced_stmts(body, name, r)),
        Statement::ImportedBlock { statements, source } => Statement::ImportedBlock {
            statements: replaced_stmts(statements, name, r),
            source,
        },
        Statement::If { kw, condition, then_branch, else_branch } => Statement::If {
            kw,
            condition: replaced_expr(condition, name, r),
            then_branch: Box::new(replaced_stmt(*then_branch, name, r)),
            else_branch: replaced_box_stmt(else_branch, name, r),
        },
        Statement::While { kw, condition, body } => Statement::While {
            kw,
            condition: replaced_expr(condition, name, r),
            body: Box::new(replaced_stmt(*body, name, r)),
        },
        Statement::DoWhile { kw, condition, body } => Statement::DoWhile {
            kw,
            condition: replaced_expr(condition, name, r),
            body: Box::new(replaced_stmt(*body, name, r)),
        },
        Statement::For { kw, initializer, condition, increments, body } => Statement::For {
            kw,
            initializer: replaced_box_stmt(initializer, name, r),
            condition: replaced_expr(condition, name, r),
            increments: replaced_exprs(increments, name, r),
            body: Box::new(replaced_stmt(*body, name, r)),
        },
        Statement::Function { name: fn_name, params, return_type, body, qualifiers, generics_names, bind, init } => {
            Statement::Function {
                name: fn_name,
                params: replaced_params(params, name, r),
                return_type: replaced_expr(return_type, name, r),
                body: replaced_opt_stmts(body, name, r),
                qualifiers,
                generics_names,
                bind,
                init,
            }
        },
        Statement::Return { kw, value } => Statement::Return { kw, value: replaced_opt_expr(value, name, r) },
        Statement::Struct { name: struct_name, fields, has_body, binding, generics_names, bind_typedefed } => {
            Statement::Struct {
                name: struct_name,
                fields: replaced_fields(fields, name, r),
                has_body,
                binding,
                generics_names,
                bind_typedefed,
            }
        },
        Statement::Impl { object, declarations } => Statement::Impl {
            object: replaced_expr(object, name, r),
            declarations: replaced_stmts(declarations, name, r),
        },
        Statement::Namespace { name: ns_name, body } => Statement::Namespace {
            name: ns_name,
            body: replaced_stmts(body, name, r),
        },
        Statement::Use { use_expr, as_name, typedef, bind } => Statement::Use {
            use_expr: replaced_expr(use_expr, name, r),
            as_name,
            typedef,
            bind,
        },
        Statement::Enum {
            name: enum_name,
            kind_type,
            variants,
            is_simple,
            has_body,
            binding,
            generics_names,
            bind_typedefed,
        } => Statement::Enum {
            name: enum_name,
            kind_type: replaced_expr(kind_type, name, r),
            variants: replaced_variants(variants, name, r),
            is_simple,
            has_body,
            binding,
            generics_names,
            bind_typedefed,
        },
        Statement::Defer { kw, statement } => Statement::Defer {
            kw,
            statement: Box::new(replaced_stmt(*statement, name, r)),
        },
        Statement::Switch { kw, expr, cases } => Statement::Switch {
            kw,
            expr: replaced_expr(expr, name, r),
            cases: replaced_cases(cases, name, r),
        },
        Statement::Template { name: template_name, declaration, generics, generics_names } => Statement::Template {
            name: template_name,
            declaration: Box::new(replaced_stmt(*declaration, name, r)),
            generics: replaced_generics(generics, name, r),
            generics_names,
        },
        Statement::Union { name: union_name, fields, has_body, binding, bind_typedefed } => Statement::Union {
            name: union_name,
            fields: replaced_fields(fields, name, r),
            has_body,
            binding,
            bind_typedefed,
        },
        Statement::Macro { name: macro_name, params, body } => Statement::Macro {
            name: macro_name,
            params,
            body: replaced_body(body, name, r),
        },
        Statement::Foreach { kw, variable_name, iterator, body } => Statement::Foreach {
            kw,
            variable_name,
            iterator: replaced_expr(iterator, name, r),
            body: Box::new(replaced_stmt(*body, name, r)),
        },
        Statement::Interface { name: interface_name, declarations, types } => Statement::Interface {
            name: interface_name,
            declarations: replaced_opt_stmts(declarations, name, r),
            types: replaced_opt_exprs(types, name, r),
        },
        _ => s,
    }
}

// ---------------------------------------------------------------------------------------------
// Occurrences of a variable.
// ---------------------------------------------------------------------------------------------

/// Whether the variable `name` occurs in the expression, outside the default values of enum
/// variants (which substitution keeps as they are).
pub open spec fn mentions_expr(e: Expression, name: Seq<char>) -> bool
    decreases e,
{
    match e {
        Expression::Variable(tok) => tok.lexeme@ == name,
        Expression::Grouping(inner) => mentions_expr(*inner, name),
        Expression::InMacro { inner, .. } => mentions_expr(*inner, name),
        Expression::Binary { left, right, .. } => mentions_expr(*left, name) || mentions_expr(*right, name),
        Expression::Unary { expr, .. } => mentions_expr(*expr, name),
        Expression::Assign { target, value, .. } => mentions_expr(*target, name) || mentions_expr(*value, name),
        Expression::Ternary { condition, then_expr, else_expr, .. } => mentions_expr(*condition, name)
            || mentions_expr(*then_expr, name) || mentions_expr(*else_expr, name),
        Expression::Call(callee, _, args, _) => mentions_expr(*callee, name) || mentions_exprs(args, name),
        Expression::FnPtr { return_type, params, .. } => mentions_expr(*return_type, name) || mentions_params(
            params,
            name,
        ),
        Expression::CompoundLiteral { type_, fields, .. } => mentions_expr(*type_, name) || mentions_fields(
            fields,
            name,
        ),
        Expression::Subscript { subscripted, args, .. } => mentions_expr(*subscripted, name) || mentions_exprs(
            args,
            name,
        ),
        Expression::Get(object, _) => mentions_expr(*object, name),
        Expression::StaticGet(object, _, _) => match object {
            Some(o) => mentions_expr(*o, name),
            None => false,
        },
        Expression::Slice { items, .. } => mentions_exprs(items, name),
        Expression::ArrayLiteral { items, .. } => mentions_exprs(items, name),
        Expression::MacroExpandedStatements { inner, .. } => mentions_stmts(inner, name),
        Expression::Array { item, size, .. } => mentions_expr(*item, name) || mentions_expr(*size, name),
        _ => false,
    }
}

pub open spec fn mentions_exprs(l: List<Expression>, name: Seq<char>) -> bool
    decreases l,
{
    match l {
        List::Nil => false,
        List::Cons(h, t) => mentions_expr(*h, name) || mentions_exprs(*t, name),
    }
}

pub open spec fn mentions_opt_expr(o: Option<Expression>, name: Seq<char>) -> bool
    decreases o,
{
    match o {
        Some(e) => mentions_expr(e, name),
        None => false,
    }
}

pub open spec fn mentions_opt_exprs(o: Option<List<Expression>>, name: Seq<char>) -> bool
    decreases o,
{
    match o {
        Some(l) => mentions_exprs(l, name),
        None => false,
    }
}

pub open spec fn mentions_params(l: List<FunctionParam>, name: Seq<char>) -> bool
    decreases l,
{
    match l {
        List::Nil => false,
        List::Cons(h, t) => mentions_expr(h.type_, name) || mentions_params(*t, name),
    }
}

pub open spec fn mentions_fields(l: List<StructField>, name: Seq<char>) -> bool
    decreases l,
{
    match l {
        List::Nil => false,
        List::Cons(h, t) => mentions_expr(h.expr, name) || mentions_opt_expr(h.bits, name) || mentions_fields(
            *t,
            name,
        ),
    }
}

pub open spec fn mentions_variants(l: List<EnumVariant>, name: Seq<char>) -> bool
    decreases l,
{
    match l {
        List::Nil => false,
        List::Cons(h, t) => mentions_expr(h.type_, name) || mentions_variants(*t, name),
    }
}

pub open spec fn mentions_generics(l: List<Generic>, name: Seq<char>) -> bool
    decreases l,
{
    match l {
        List::Nil => false,
        List::Cons(h, t) => mentions_opt_expr(h.bounds, name) || mentions_opt_expr(h.default, name)
            || mentions_generics(*t, name),
    }
}

pub open spec fn mentions_cases(l: List<SwitchCase>, name: Seq<char>) -> bool
    decreases l,
{
    match l {
        List::Nil => false,
        List::Cons(h, t) => mentions_opt_exprs(h.cases, name) || mentions_stmts(h.code, name) || mentions_cases(
            *t,
            name,
        ),
    }
}

pub open spec fn mentions_stmts(l: List<Statement>, name: Seq<char>) -> bool
    decreases l,
{
    match l {
        List::Nil => false,
        List::Cons(h, t) => mentions_stmt(*h, name) || mentions_stmts(*t, name),
    }
}

pub open spec fn mentions_opt_stmts(o: Option<List<Statement>>, name: Seq<char>) -> bool
    decreases o,
{
    match o {
        Some(l) => mentions_stmts(l, name),
        None => false,
    }
}

pub open spec fn mentions_box_stmt(o: Option<Box<Statement>>, name: Seq<char>) -> bool
    decreases o,
{
    match o {
        Some(s) => mentions_stmt(*s, name),
        None => false,
    }
}

pub open spec fn mentions_body(b: MacroBody, name: Seq<char>) -> bool
    decreases b,
{
    match b {
        MacroBody::Binding(e) => mentions_expr(e, name),
        MacroBody::Expression(e) => mentions_expr(e, name),
        MacroBody::Block(l) => mentions_stmts(l, name),
    }
}

/// Whether the variable `name` occurs in the expressions of the statement, outside the default
/// values of enum variants.
pub open spec fn mentions_stmt(s: Statement, name: Seq<char>) -> bool
    decreases s,
{
    match s {
        Statement::Expression(e) => mentions_expr(e, name),
        Statement::VarDecl { initializer, type_, .. } => mentions_opt_expr(initializer, name) || mentions_opt_expr(
            type_,
            name,
        ),
        Statement::Block(_, body) => mentions_stmts(body, name),
        Statement::ImportedBlock { statements, .. } => mentions_stmts(statements, name),
        Statement::If { condition, then_branch, else_branch, .. } => mentions_expr(condition, name) || mentions_stmt(
            *then_branch,
            name,
        ) || mentions_box_stmt(else_branch, name),
        Statement::While { condition, body, .. } => mentions_expr(condition, name) || mentions_stmt(*body, name),
        Statement::DoWhile { condition, body, .. } => mentions_expr(condition, name) || mentions_stmt(*body, name),
        Statement::For { initializer, condition, increments, body, .. } => mentions_box_stmt(initializer, name)
            || mentions_expr(condition, name) || mentions_exprs(increments, name) || mentions_stmt(*body, name),
        Statement::Function { params, return_type, body, .. } => mentions_params(params, name) || mentions_expr(
            return_type,
            name,
        ) || mentions_opt_stmts(body, name),
        Statement::Return { value, .. } => mentions_opt_expr(value, name),
        Statement::Struct { fields, .. } => mentions_fields(fields, name),
        Statement::Impl { object, declarations } => mentions_expr(object, name) || mentions_stmts(declarations, name),
        Statement::Namespace { body, .. } => mentions_stmts(body, name),
        Statement::Use { use_expr, .. } => mentions_expr(use_expr, name),
        Statement::Enum { kind_type, variants, .. } => mentions_expr(kind_type, name) || mentions_variants(
            variants,
            name,
        ),
        Statement::Defer { statement, .. } => mentions_stmt(*statement, name),
        Statement::Switch { expr, cases, .. } => mentions_expr(expr, name) || mentions_cases(cases, name),
        Statement::Template { declaration, generics, .. } => mentions_stmt(*declaration, name) || mentions_generics(
            generics,
            name,
        ),
        Statement::Union { fields, .. } => mentions_fields(fields, name),
        Statement::Macro { body, .. } => mentions_body(body, name),
        Statement::Foreach { iterator, body, .. } => mentions_expr(iterator, name) || mentions_stmt(*body, name),
        Statement::Interface { declarations, types, .. } => mentions_opt_stmts(declarations, name)
            || mentions_opt_exprs(types, name),
        _ => false,
    }
}

// ---------------------------------------------------------------------------------------------
// Substitution removes the variable.
// ---------------------------------------------------------------------------------------------

/// Substituting, for a variable, an expression in which that variable does not occur leaves no
/// occurrence of it in the expression.
pub proof fn lemma_replace_removes_variable(e: Expression, name: Seq<char>, r: Expression)
    requires
        !mentions_expr(r, name),
    ensures
        !mentions_expr(replaced_expr(e, name, r), name),
    decreases e,
{
    match e {
        Expression::Grouping(inner) => lemma_replace_removes_variable(*inner, name, r),
        Expression::InMacro { inner, .. } => lemma_replace_removes_variable(*inner, name, r),
        Expression::Binary { left, right, .. } => {
            lemma_replace_removes_variable(*left, name, r);
            lemma_replace_removes_variable(*right, name, r);
        },
        Expression::Unary { expr, .. } => lemma_replace_removes_variable(*expr, name, r),
        Expression::Assign { target, value, .. } => {
            lemma_replace_removes_variable(*target, name, r);
            lemma_replace_removes_variable(*value, name, r);
        },
        Expression::Ternary { condition, then_expr, else_expr, .. } => {
            lemma_replace_removes_variable(*condition, name, r);
            lemma_replace_removes_variable(*then_expr, name, r);
            lemma_replace_removes_variable(*else_expr, name, r);
        },
        Expression::Call(callee, _, args, _) => {
            lemma_replace_removes_variable(*callee, name, r);
            lemma_exprs(args, name, r);
        },
        Expression::FnPtr { return_type, params, .. } => {
            lemma_replace_removes_variable(*return_type, name, r);
            lemma_params(params, name, r);
        },
        Expression::CompoundLiteral { type_, fields, .. } => {
            lemma_replace_removes_variable(*type_, name, r);
            lemma_fields(fields, name, r);
        },
        Expression::Subscript { subscripted, args, .. } => {
            lemma_replace_removes_variable(*subscripted, name, r);
            lemma_exprs(args, name, r);
        },
        Expression::Get(object, _) => lemma_replace_removes_variable(*object, name, r),
        Expression::StaticGet(object, _, _) => match object {
            Some(o) => lemma_replace_removes_variable(*o, name, r),
            None => {},
        },
        Expression::Slice { items, .. } => lemma_exprs(items, name, r),
        Expression::ArrayLiteral { items, .. } => lemma_exprs(items, name, r),
        Expression::MacroExpandedStatements { inner, .. } => lemma_stmts(inner, name, r),
        Expression::Array { item, size, .. } => {
            lemma_replace_removes_variable(*item, name, r);
            lemma_replace_removes_variable(*size, name, r);
        },
        _ => {},
    }
}

proof fn lemma_exprs(l: List<Expression>, name: Seq<char>, r: Expression)
    requires
        !mentions_expr(r, name),
    ensures
        !mentions_exprs(replaced_exprs(l, name, r), name),
    decreases l,
{
    match l {
        List::Nil => {},
        List::Cons(h, t) => {
            lemma_replace_removes_variable(*h, name, r);
            lemma_exprs(*t, name, r);
        },
    }
}

proof fn lemma_opt_expr(o: Option<Expression>, name: Seq<char>, r: Expression)
    requires
        !mentions_expr(r, name),
    ensures
        !mentions_opt_expr(replaced_opt_expr(o, name, r), name),
    decreases o,
{
    match o {
        Some(e) => lemma_replace_removes_variable(e, name, r),
        None => {},
    }
}

proof fn lemma_opt_exprs(o: Option<List<Expression>>, name: Seq<char>, r: Expression)
    requires
        !mentions_expr(r, name),
    ensures
        !mentions_opt_exprs(replaced_opt_exprs(o, name, r), name),
    decreases o,
{
    match o {
        Some(l) => lemma_exprs(l, name, r),
        None => {},
    }
}

proof fn lemma_params(l: List<FunctionParam>, name: Seq<char>, r: Expression)
    requires
        !mentions_expr(r, name),
    ensures
        !mentions_params(replaced_params(l, name, r), name),
    decreases l,
{
    match l {
        List::Nil => {},
        List::Cons(h, t) => {
            lemma_replace_removes_variable(h.type_, name, r);
            lemma_params(*t, name, r);
        },
    }
}

proof fn lemma_fields(l: List<StructField>, name: Seq<char>, r: Expression)
    requires
        !mentions_expr(r, name),
    ensures
        !mentions_fields(replaced_fields(l, name, r), name),
    decreases l,
{
    match l {
        List::Nil => {},
        List::Cons(h, t) => {
            lemma_replace_removes_variable(h.expr, name, r);
            lemma_opt_expr(h.bits, name, r);
            lemma_fields(*t, name, r);
        },
    }
}

proof fn lemma_variants(l: List<EnumVariant>, name: Seq<char>, r: Expression)
    requires
        !mentions_expr(r, name),
    ensures
        !mentions_variants(replaced_variants(l, name, r), name),
    decreases l,
{
    match l {
        List::Nil => {},
        List::Cons(h, t) => {
            lemma_replace_removes_variable(h.type_, name, r);
            lemma_variants(*t, name, r);
        },
    }
}

proof fn lemma_generics(l: List<Generic>, name: Seq<char>, r: Expression)
    requires
        !mentions_expr(r, name),
    ensures
        !mentions_generics(replaced_generics(l, name, r), name),
    decreases l,
{
    match l {
        List::Nil => {},
        List::Cons(h, t) => {
            lemma_opt_expr(h.bounds, name, r);
            lemma_opt_expr(h.default, name, r);
            lemma_generics(*t, name, r);
        },
    }
}

proof fn lemma_cases(l: List<SwitchCase>, name: Seq<char>, r: Expression)
    requires
        !mentions_expr(r, name),
    ensures
        !mentions_cases(replaced_cases(l, name, r), name),
    decreases l,
{
    match l {
        List::Nil => {},
        List::Cons(h, t) => {
            lemma_opt_exprs(h.cases, name, r);
            lemma_stmts(h.code, name, r);
            lemma_cases(*t, name, r);
        },
    }
}

proof fn lemma_stmts(l: List<Statement>, name: Seq<char>, r: Expression)
    requires
        !mentions_expr(r, name),
    ensures
        !mentions_stmts(replaced_stmts(l, name, r), name),
    decreases l,
{
    match l {
        List::Nil => {},
        List::Cons(h, t) => {
            lemma_replace_removes_variable_stmt(*h, name, r);
            lemma_stmts(*t, name, r);
        },
    }
}

proof fn lemma_opt_stmts(o: Option<List<Statement>>, name: Seq<char>, r: Expression)
    requires
        !mentions_expr(r, name),
    ensures
        !mentions_opt_stmts(replaced_opt_stmts(o, name, r), name),
    decreases o,
{
    match o {
        Some(l) => lemma_stmts(l, name, r),
        None => {},
    }
}

proof fn lemma_box_stmt(o: Option<Box<Statement>>, name: Seq<char>, r: Expression)
    requires
        !mentions_expr(r, name),
    ensures
        !mentions_box_stmt(replaced_box_stmt(o, name, r), name),
    decreases o,
{
    match o {
        Some(s) => lemma_replace_removes_variable_stmt(*s, name, r),
        None => {},
    }
}

proof fn lemma_body(b: MacroBody, name: Seq<char>, r: Expression)
    requires
        !mentions_expr(r, name),
    ensures
        !mentions_body(replaced_body(b, name, r), name),
    decreases b,
{
    match b {
        MacroBody::Binding(e) => lemma_replace_removes_variable(e, name, r),
        MacroBody::Expression(e) => lemma_replace_removes_variable(e, name, r),
        MacroBody::Block(l) => lemma_stmts(l, name, r),
    }
}

/// Substituting, for a variable, an expression in which that variable does not occur leaves no
/// occurrence of it in the statement's expressions (enum variant defaults aside).
pub proof fn lemma_replace_removes_variable_stmt(s: Statement, name: Seq<char>, r: Expression)
    requires
        !mentions_expr(r, name),
    ensures
        !mentions_stmt(replaced_stmt(s, name, r), name),
    decreases s,
{
    match s {
        Statement::Expression(e) => lemma_replace_removes_variable(e, name, r),
        Statement::VarDecl { initializer, type_, .. } => {
            lemma_opt_expr(initializer, name, r);
            lemma_opt_expr(type_, name, r);
        },
        Statement::Block(_, body) => lemma_stmts(body, name, r),
        Statement::ImportedBlock { statements, .. } => lemma_stmts(statements, name, r),
        Statement::If { condition, then_branch, else_branch, .. } => {
            lemma_replace_removes_variable(condition, name, r);
            lemma_replace_removes_variable_stmt(*then_branch, name, r);
            lemma_box_stmt(else_branch, name, r);
        },
        Statement::While { condition, body, .. } => {
            lemma_replace_removes_variable(condition, name, r);
            lemma_replace_removes_variable_stmt(*body, name, r);
        },
        Statement::DoWhile { condition, body, .. } => {
            lemma_replace_removes_variable(condition, name, r);
            lemma_replace_removes_variable_stmt(*body, name, r);
        },
        Statement::For { initializer, condition, increments, body, .. } => {
            lemma_box_stmt(initializer, name, r);
            lemma_replace_removes_variable(condition, name, r);
            lemma_exprs(increments, name, r);
            lemma_replace_removes_variable_stmt(*body, name, r);
        },
        Statement::Function { params, return_type, body, .. } => {
            lemma_params(params, name, r);
            lemma_replace_removes_variable(return_type, name, r);
            lemma_opt_stmts(body, name, r);
        },
        Statement::Return { value, .. } => lemma_opt_expr(value, name, r),
        Statement::Struct { fields, .. } => lemma_fields(fields, name, r),
        Statement::Impl { object, declarations } => {
            lemma_replace_removes_variable(object, name, r);
            lemma_stmts(declarations, name, r);
        },
        Statement::Namespace { body, .. } => lemma_stmts(body, name, r),
        Statement::Use { use_expr, .. } => lemma_replace_removes_variable(use_expr, name, r),
        Statement::Enum { kind_type, variants, .. } => {
            lemma_replace_removes_variable(kind_type, name, r);
            lemma_variants(variants, name, r);
        },
        Statement::Defer { statement, .. } => lemma_replace_removes_variable_stmt(*statement, name, r),
        Statement::Switch { expr, cases, .. } => {
            lemma_replace_removes_variable(expr, name, r);
            lemma_cases(cases, name, r);
        },
        Statement::Template { declaration, generics, .. } => {
            lemma_replace_removes_variable_stmt(*declaration, name, r);
            lemma_generics(generics, name, r);
        },
        Statement::Union { fields, .. } => lemma_fields(fields, name, r),
        Statement::Macro { body, .. } => lemma_body(body, name, r),
        Statement::Foreach { iterator, body, .. } => {
            lemma_replace_removes_variable(iterator, name, r);
            lemma_replace_removes_variable_stmt(*body, name, r);
        },
        Statement::Interface { declarations, types, .. } => {
            lemma_opt_stmts(declarations, name, r);
            lemma_opt_exprs(types, name, r);
        },
        _ => {},
    }
}

// ---------------------------------------------------------------------------------------------
// Substitution.
// ---------------------------------------------------------------------------------------------

fn replace_in_exprs(l: &List<Expression>, name: &String, r: &Expression) -> (res: List<Expression>)
    ensures
        res == replaced_exprs(*l, name@, *r),
    decreases l,
{
    match l {
        List::Nil => List::Nil,
        List::Cons(h, t) => List::Cons(Box::new(h.replace_variable(name, r)), Box::new(replace_in_exprs(t, name, r))),
    }
}

fn replace_in_opt_expr(o: &Option<Expression>, name: &String, r: &Expression) -> (res: Option<Expression>)
    ensures
        res == replaced_opt_expr(*o, name@, *r),
    decreases o,
{
    match o {
        Some(e) => Some(e.replace_variable(name, r)),
        None => None,
    }
}

fn replace_in_opt_exprs(o: &Option<List<Expression>>, name: &String, r: &Expression) -> (res: Option<List<Expression>>)
    ensures
        res == replaced_opt_exprs(*o, name@, *r),
    decreases o,
{
    match o {
        Some(l) => Some(replace_in_exprs(l, name, r)),
        None => None,
    }
}

fn replace_in_params(l: &List<FunctionParam>, name: &String, r: &Expression) -> (res: List<FunctionParam>)
    ensures
        res == replaced_params(*l, name@, *r),
    decreases l,
{
    match l {
        List::Nil => List::Nil,
        List::Cons(h, t) => List::Cons(
            Box::new(FunctionParam::new(clone_opt_token(&h.name), h.type_.replace_variable(name, r), h.is_const)),
            Box::new(replace_in_params(t, name, r)),
        ),
    }
}

fn replace_in_fields(l: &List<StructField>, name: &String, r: &Expression) -> (res: List<StructField>)
    ensures
        res == replaced_fields(*l, name@, *r),
    decreases l,
{
    match l {
        List::Nil => List::Nil,
        List::Cons(h, t) => List::Cons(
            Box::new(
                StructField::new(
                    h.name.clone(),
                    h.expr.replace_variable(name, r),
                    replace_in_opt_expr(&h.bits, name, r),
                    h.is_const,
                ),
            ),
            Box::new(replace_in_fields(t, name, r)),
        ),
    }
}

fn replace_in_variants(l: &List<EnumVariant>, name: &String, r: &Expression) -> (res: List<EnumVariant>)
    ensures
        res == replaced_variants(*l, name@, *r),
    decreases l,
{
    match l {
        List::Nil => List::Nil,
        List::Cons(h, t) => List::Cons(
            Box::new(EnumVariant::new(h.name.clone(), h.type_.replace_variable(name, r), clone_opt_expr(&h.default))),
            Box::new(replace_in_variants(t, name, r)),
        ),
    }
}

fn replace_in_generics(l: &List<Generic>, name: &String, r: &Expression) -> (res: List<Generic>)
    ensures
        res == replaced_generics(*l, name@, *r),
    decreases l,
{
    match l {
        List::Nil => List::Nil,
        List::Cons(h, t) => List::Cons(
            Box::new(
                Generic::new(
                    h.name.clone(),
                    replace_in_opt_expr(&h.bounds, name, r),
                    replace_in_opt_expr(&h.default, name, r),
                ),
            ),
            Box::new(replace_in_generics(t, name, r)),
        ),
    }
}

fn replace_in_cases(l: &List<SwitchCase>, name: &String, r: &Expression) -> (res: List<SwitchCase>)
    ensures
        res == replaced_cases(*l, name@, *r),
    decreases l,
{
    match l {
        List::Nil => List::Nil,
        List::Cons(h, t) => List::Cons(
            Box::new(SwitchCase::new(replace_in_opt_exprs(&h.cases, name, r), replace_in_stmts(&h.code, name, r))),
            Box::new(replace_in_cases(t, name, r)),
        ),
    }
}

fn replace_in_stmts(l: &List<Statement>, name: &String, r: &Expression) -> (res: List<Statement>)
    ensures
        res == replaced_stmts(*l, name@, *r),
    decreases l,
{
    match l {
        List::Nil => List::Nil,
        List::Cons(h, t) => List::Cons(Box::new(h.replace_variable(name, r)), Box::new(replace_in_stmts(t, name, r))),
    }
}

fn replace_in_opt_stmts(o: &Option<List<Statement>>, name: &String, r: &Expression) -> (res: Option<List<Statement>>)
    ensures
        res == replaced_opt_stmts(*o, name@, *r),
    decreases o,
{
    match o {
        Some(l) => Some(replace_in_stmts(l, name, r)),
        None => None,
    }
}

fn replace_in_box_stmt(o: &Option<Box<Statement>>, name: &String, r: &Expression) -> (res: Option<Box<Statement>>)
    ensures
        res == replaced_box_stmt(*o, name@, *r),
    decreases o,
{
    match o {
        Some(s) => Some(Box::new(s.replace_variable(name, r))),
        None => None,
    }
}

impl Expression {
    /// This expression with `replace_expr`, in parentheses, in place of each occurrence of the
    /// variable `name`.
    pub fn replace_variable(&self, name: &String, replace_expr: &Expression) -> (res: Expression)
        ensures
            res == replaced_expr(*self, name@, *replace_expr),
        decreases self,
    {
        let r = replace_expr;
        match self {
            Expression::Grouping(inner) => inner.replace_variable(name, r),
            Expression::InMacro { inner, .. } => inner.replace_variable(name, r),
            Expression::Variable(tok) => {
                if tok.lexeme == *name {
                    Expression::Grouping(Box::new(r.deep_clone()))
                } else {
                    self.deep_clone()
                }
            },
            Expression::Binary { left, op, right } => Expression::Binary {
                left: Box::new(left.replace_variable(name, r)),
                op: op.clone(),
                right: Box::new(right.replace_variable(name, r)),
            },
            Expression::Unary { op, expr, is_prefix } => Expression::Unary {
                op: op.clone(),
                expr: Box::new(expr.replace_variable(name, r)),
                is_prefix: *is_prefix,
            },
            Expression::Assign { target, op, value } => Expression::Assign {
                target: Box::new(target.replace_variable(name, r)),
                op: op.clone(),
                value: Box::new(value.replace_variable(name, r)),
            },
            Expression::Ternary { tok, condition, then_expr, else_expr } => Expression::Ternary {
                tok: tok.clone(),
                condition: Box::new(condition.replace_variable(name, r)),
                then_expr: Box::new(then_expr.replace_variable(name, r)),
                else_expr: Box::new(else_expr.replace_variable(name, r)),
            },
            Expression::Call(callee, paren, args, unpack) => Expression::Call(
                Box::new(callee.replace_variable(name, r)),
                paren.clone(),
                replace_in_exprs(args, name, r),
                *unpack,
            ),
            Expression::FnPtr { kw, return_type, params } => Expression::FnPtr {
                kw: kw.clone(),
                return_type: Box::new(return_type.replace_variable(name, r)),
                params: replace_in_params(params, name, r),
            },
            Expression::CompoundLiteral { type_, closing_brace, fields } => Expression::CompoundLiteral {
                type_: Box::new(type_.replace_variable(name, r)),
                closing_brace: closing_brace.clone(),
                fields: replace_in_fields(fields, name, r),
            },
            Expression::Subscript { subscripted, paren, args } => Expression::Subscript {
                subscripted: Box::new(subscripted.replace_variable(name, r)),
                paren: paren.clone(),
                args: replace_in_exprs(args, name, r),
            },
            Expression::Get(object, get_name) => Expression::Get(
                Box::new(object.replace_variable(name, r)),
                get_name.clone(),
            ),
            Expression::StaticGet(object, get_name, gets_macro) => Expression::StaticGet(
                match object {
                    Some(o) => Some(Box::new(o.replace_variable(name, r))),
                    None => None,
                },
                get_name.clone(),
                *gets_macro,
            ),
            Expression::Slice { opening_brace, items } => Expression::Slice {
                opening_brace: opening_brace.clone(),
                items: replace_in_exprs(items, name, r),
            },
            Expression::ArrayLiteral { opening_brace, items } => Expression::ArrayLiteral {
                opening_brace: opening_brace.clone(),
                items: replace_in_exprs(items, name, r),
            },
            Expression::MacroExpandedStatements { inner, source } => Expression::MacroExpandedStatements {
                inner: replace_in_stmts(inner, name, r),
                source: source.clone(),
            },
            Expression::Array { opening_brace, item, size } => Expression::Array {
                opening_brace: opening_brace.clone(),
                item: Box::new(item.replace_variable(name, r)),
                size: Box::new(size.replace_variable(name, r)),
            },
            _ => self.deep_clone(),
        }
    }
}

impl MacroBody {
    /// This body with `replace_expr`, in parentheses, in place of each occurrence of the
    /// variable `name`.
    pub fn replace_variable(&self, name: &String, replace_expr: &Expression) -> (res: MacroBody)
        ensures
            res == replaced_body(*self, name@, *replace_expr),
        decreases self,
    {
        match self {
            MacroBody::Binding(e) => MacroBody::Binding(e.replace_variable(name, replace_expr)),
            MacroBody::Expression(e) => MacroBody::Expression(e.replace_variable(name, replace_expr)),
            MacroBody::Block(l) => MacroBody::Block(replace_in_stmts(l, name, replace_expr)),
        }
    }
}

impl Statement {
    /// This statement with `replace_expr`, in parentheses, in place of each occurrence of the
    /// variable `name` in its expressions.
    pub fn replace_variable(&self, name: &String, replace_expr: &Expression) -> (res: Statement)
        ensures
            res == replaced_stmt(*self, name@, *replace_expr),
        decreases self,
    {
        let r = replace_expr;
        match self {
            Statement::Expression(e) => Statement::Expression(e.replace_variable(name, r)),
            Statement::VarDecl { name: var_name, initializer, type_, is_const, qualifiers } => Statement::VarDecl {
                name: var_name.clone(),
                initializer: replace_in_opt_expr(initializer, name, r),
                type_: replace_in_opt_expr(type_, name, r),
                is_const: *is_const,
                qualifiers: clone_tokens(qualifiers),
            },
            Statement::Block(kw, body) => Statement::Block(kw.clone(), replace_in_stmts(body, name, r)),
            Statement::ImportedBlock { statements, source } => Statement::ImportedBlock {
                statements: replace_in_stmts(statements, name, r),
                source: source.clone(),
            },
            Statement::If { kw, condition, then_branch, else_branch } => Statement::If {
                kw: kw.clone(),
                condition: condition.replace_variable(name, r),
                then_branch: Box::new(then_branch.replace_variable(name, r)),
                else_branch: replace_in_box_stmt(else_branch, name, r),
            },
            Statement::While { kw, condition, body } => Statement::While {
                kw: kw.clone(),
                condition: condition.replace_variable(name, r),
                body: Box::new(body.replace_variable(name, r)),
            },
            Statement::DoWhile { kw, condition, body } => Statement::DoWhile {
                kw: kw.clone(),
                condition: condition.replace_variable(name, r),
                body: Box::new(body.replace_variable(name, r)),
            },
            Statement::For { kw, initializer, condition, increments, body } => Statement::For {
                kw: kw.clone(),
                initializer: replace_in_box_stmt(initializer, name, r),
                condition: condition.replace_variable(name, r),
                increments: replace_in_exprs(increments, name, r),
                body: Box::new(body.replace_variable(name, r)),
            },
            Statement::Function { name: fn_name, params, return_type, body, qualifiers, generics_names, bind, init } => {
                Statement::Function {
                    name: fn_name.clone(),
                    params: replace_in_params(params, name, r),
                    return_type: return_type.replace_variable(name, r),
                    body: replace_in_opt_stmts(body, name, r),
                    qualifiers: clone_tokens(qualifiers),
                    generics_names: clone_tokens(generics_names),
                    bind: *bind,
                    init: *init,
                }
            },
            Statement::Return { kw, value } => Statement::Return {
                kw: kw.clone(),
                value: replace_in_opt_expr(value, name, r),
            },
            Statement::Struct { name: struct_name, fields, has_body, binding, generics_names, bind_typedefed } => {
                Statement::Struct {
                    name: struct_name.clone(),
                    fields: replace_in_fields(fields, name, r),
                    has_body: *has_body,
                    binding: clone_opt_token(binding),
                    generics_names: clone_tokens(generics_names),
                    bind_typedefed: *bind_typedefed,
                }
            },
            Statement::Impl { object, declarations } => Statement::Impl {
                object: object.replace_variable(name, r),
                declarations: replace_in_stmts(declarations, name, r),
            },
            Statement::Namespace { name: ns_name, body } => Statement::Namespace {
                name: ns_name.clone(),
                body: replace_in_stmts(body, name, r),
            },
            Statement::Use { use_expr, as_name, typedef, bind } => Statement::Use {
                use_expr: use_expr.replace_variable(name, r),
                as_name: as_name.clone(),
                typedef: *typedef,
                bind: *bind,
            },
            Statement::Enum {
                name: enum_name,
                kind_type,
                variants,
                is_simple,
                has_body,
                binding,
                generics_names,
                bind_typedefed,
            } => Statement::Enum {
                name: enum_name.clone(),
                kind_type: kind_type.replace_variable(name, r),
                variants: replace_in_variants(variants, name, r),
                is_simple: *is_simple,
                has_body: *has_body,
                binding: clone_opt_token(binding),
                generics_names: clone_tokens(generics_names),
                bind_typedefed: *bind_typedefed,
            },
            Statement::Defer { kw, statement } => Statement::Defer {
                kw: kw.clone(),
                statement: Box::new(statement.replace_variable(name, r)),
            },
            Statement::Switch { kw, expr, cases } => Statement::Switch {
                kw: kw.clone(),
                expr: expr.replace_variable(name, r),
                cases: replace_in_cases(cases, name, r),
            },
            Statement::Template { name: template_name, declaration, generics, generics_names } => Statement::Template {
                name: template_name.clone(),
                declaration: Box::new(declaration.replace_variable(name, r)),
                generics: replace_in_generics(generics, name, r),
                generics_names: clone_tokens(generics_names),
            },
            Statement::Union { name: union_name, fields, has_body, binding, bind_typedefed } => Statement::Union {
                name: union_name.clone(),
                fields: replace_in_fields(fields, name, r),
                has_body: *has_body,
                binding: clone_opt_token(binding),
                bind_typedefed: *bind_typedefed,
            },
            Statement::Macro { name: macro_name, params, body } => Statement::Macro {
                name: macro_name.clone(),
                params: params.deep_clone(),
                body: body.replace_variable(name, r),
            },
            Statement::Foreach { kw, variable_name, iterator, body } => Statement::Foreach {
                kw: kw.clone(),
                variable_name: variable_name.clone(),
                iterator: iterator.replace_variable(name, r),
                body: Box::new(body.replace_variable(name, r)),
            },
            Statement::Interface { name: interface_name, declarations, types } => Statement::Interface {
                name: interface_name.clone(),
                declarations: replace_in_opt_stmts(declarations, name, r),
                types: replace_in_opt_exprs(types, name, r),
            },
            _ => self.deep_clone(),
        }
    }
}

// ---------------------------------------------------------------------------------------------
// Substitution keeps what it does not touch.
// ---------------------------------------------------------------------------------------------

/// The expression has no parentheses and no macro expansion in it, which substitution drops.
pub open spec fn unwrapped_expr(e: Expression) -> bool
    decreases e,
{
    match e {
        Expression::Grouping(_) => false,
        Expression::InMacro { .. } => false,
        Expression::MacroExpandedStatements { .. } => false,
        Expression::Binary { left, right, .. } => unwrapped_expr(*left) && unwrapped_expr(*right),
        Expression::Unary { expr, .. } => unwrapped_expr(*expr),
        Expression::Assign { target, value, .. } => unwrapped_expr(*target) && unwrapped_expr(*value),
        Expression::Ternary { condition, then_expr, else_expr, .. } => unwrapped_expr(*condition)
            && unwrapped_expr(*then_expr) && unwrapped_expr(*else_expr),
        Expression::Call(callee, _, args, _) => unwrapped_expr(*callee) && unwrapped_exprs(args),
        Expression::FnPtr { return_type, params, .. } => unwrapped_expr(*return_type) && unwrapped_params(params),
        Expression::CompoundLiteral { type_, fields, .. } => unwrapped_expr(*type_) && unwrapped_fields(fields),
        Expression::Subscript { subscripted, args, .. } => unwrapped_expr(*subscripted) && unwrapped_exprs(args),
        Expression::Get(object, _) => unwrapped_expr(*object),
        Expression::StaticGet(object, _, _) => match object {
            Some(o) => unwrapped_expr(*o),
            None => true,
        },
        Expression::Slice { items, .. } => unwrapped_exprs(items),
        Expression::ArrayLiteral { items, .. } => unwrapped_exprs(items),
        Expression::Array { item, size, .. } => unwrapped_expr(*item) && unwrapped_expr(*size),
        _ => true,
    }
}

pub open spec fn unwrapped_exprs(l: List<Expression>) -> bool
    decreases l,
{
    match l {
        List::Nil => true,
        List::Cons(h, t) => unwrapped_expr(*h) && unwrapped_exprs(*t),
    }
}

pub open spec fn unwrapped_params(l: List<FunctionParam>) -> bool
    decreases l,
{
    match l {
        List::Nil => true,
        List::Cons(h, t) => unwrapped_expr(h.type_) && unwrapped_params(*t),
    }
}

pub open spec fn unwrapped_opt_expr(o: Option<Expression>) -> bool
    decreases o,
{
    match o {
        Some(e) => unwrapped_expr(e),
        None => true,
    }
}

pub open spec fn unwrapped_fields(l: List<StructField>) -> bool
    decreases l,
{
    match l {
        List::Nil => true,
        List::Cons(h, t) => unwrapped_expr(h.expr) && unwrapped_opt_expr(h.bits) && unwrapped_fields(*t),
    }
}

/// Substituting for a variable that does not occur in an expression without parentheses or
/// macro expansions gives the expression back unchanged: every part stays in its place.
pub proof fn lemma_replace_absent_variable(e: Expression, name: Seq<char>, r: Expression)
    requires
        unwrapped_expr(e),
        !mentions_expr(e, name),
    ensures
        replaced_expr(e, name, r) == e,
    decreases e,
{
    match e {
        Expression::Binary { left, right, .. } => {
            lemma_replace_absent_variable(*left, name, r);
            lemma_replace_absent_variable(*right, name, r);
        },
        Expression::Unary { expr, .. } => lemma_replace_absent_variable(*expr, name, r),
        Expression::Assign { target, value, .. } => {
            lemma_replace_absent_variable(*target, name, r);
            lemma_replace_absent_variable(*value, name, r);
        },
        Expression::Ternary { condition, then_expr, else_expr, .. } => {
            lemma_replace_absent_variable(*condition, name, r);
            lemma_replace_absent_variable(*then_expr, name, r);
            lemma_replace_absent_variable(*else_expr, name, r);
        },
        Expression::Call(callee, _, args, _) => {
            lemma_replace_absent_variable(*callee, name, r);
            lemma_absent_exprs(args, name, r);
        },
        Expression::FnPtr { return_type, params, .. } => {
            lemma_replace_absent_variable(*return_type, name, r);
            lemma_absent_params(params, name, r);
        },
        Expression::CompoundLiteral { type_, fields, .. } => {
            lemma_replace_absent_variable(*type_, name, r);
            lemma_absent_fields(fields, name, r);
        },
        Expression::Subscript { subscripted, args, .. } => {
            lemma_replace_absent_variable(*subscripted, name, r);
            lemma_absent_exprs(args, name, r);
        },
        Expression::Get(object, _) => lemma_replace_absent_variable(*object, name, r),
        Expression::StaticGet(object, _, _) => match object {
            Some(o) => lemma_replace_absent_variable(*o, name, r),
            None => {},
        },
        Expression::Slice { items, .. } => lemma_absent_exprs(items, name, r),
        Expression::ArrayLiteral { items, .. } => lemma_absent_exprs(items, name, r),
        Expression::Array { item, size, .. } => {
            lemma_replace_absent_variable(*item, name, r);
            lemma_replace_absent_variable(*size, name, r);
        },
        _ => {},
    }
}

proof fn lemma_absent_exprs(l: List<Expression>, name: Seq<char>, r: Expression)
    requires
        unwrapped_exprs(l),
        !mentions_exprs(l, name),
    ensures
        replaced_exprs(l, name, r) == l,
    decreases l,
{
    match l {
        List::Nil => {},
        List::Cons(h, t) => {
            lemma_replace_absent_variable(*h, name, r);
            lemma_absent_exprs(*t, name, r);
        },
    }
}

proof fn lemma_absent_params(l: List<FunctionParam>, name: Seq<char>, r: Expression)
    requires
        unwrapped_params(l),
        !mentions_params(l, name),
    ensures
        replaced_params(l, name, r) == l,
    decreases l,
{
    match l {
        List::Nil => {},
        List::Cons(h, t) => {
            lemma_replace_absent_variable(h.type_, name, r);
            lemma_absent_params(*t, name, r);
        },
    }
}

proof fn lemma_absent_opt_expr(o: Option<Expression>, name: Seq<char>, r: Expression)
    requires
        unwrapped_opt_expr(o),
        !mentions_opt_expr(o, name),
    ensures
        replaced_opt_expr(o, name, r) == o,
    decreases o,
{
    match o {
        Some(e) => lemma_replace_absent_variable(e, name, r),
        None => {},
    }
}

proof fn lemma_absent_fields(l: List<StructField>, name: Seq<char>, r: Expression)
    requires
        unwrapped_fields(l),
        !mentions_fields(l, name),
    ensures
        replaced_fields(l, name, r) == l,
    decreases l,
{
    match l {
        List::Nil => {},
        List::Cons(h, t) => {
            lemma_replace_absent_variable(h.expr, name, r);
            lemma_absent_opt_expr(h.bits, name, r);
            lemma_absent_fields(*t, name, r);
        },
    }
}

/// The ternary `condition ? then_expr : else_expr`.
pub open spec fn ternary(tok: Token, condition: Expression, then_expr: Expression, else_expr: Expression) -> Expression {
    Expression::Ternary {
        tok,
        condition: Box::new(condition),
        then_expr: Box::new(then_expr),
        else_expr: Box::new(else_expr),
    }
}

/// Substituting for the variable of a ternary's branch alone, in a ternary whose condition and
/// other branch are without that variable (and without parentheses or macro expansions), puts
/// the replacement, in parentheses, in that branch and leaves the rest in place.
pub proof fn lemma_replace_in_branch(tok: Token, condition: Expression, var: Token, other: Expression, r: Expression)
    requires
        unwrapped_expr(condition),
        unwrapped_expr(other),
        !mentions_expr(condition, var.lexeme@),
        !mentions_expr(other, var.lexeme@),
    ensures
        replaced_expr(ternary(tok, condition, Expression::Variable(var), other), var.lexeme@, r) == ternary(
            tok,
            condition,
            Expression::Grouping(Box::new(r)),
            other,
        ),
        replaced_expr(ternary(tok, condition, other, Expression::Variable(var)), var.lexeme@, r) == ternary(
            tok,
            condition,
            other,
            Expression::Grouping(Box::new(r)),
        ),
{
    lemma_replace_absent_variable(condition, var.lexeme@, r);
    lemma_replace_absent_variable(other, var.lexeme@, r);
    assert(replaced_expr(Expression::Variable(var), var.lexeme@, r) == Expression::Grouping(Box::new(r)));
}

} // verus!
