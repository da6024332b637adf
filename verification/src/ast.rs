use vstd::prelude::*;

use crate::list::List;
use crate::tokens::{Token, TokenType};

pub mod constant_folder;
pub mod replace;
pub mod import_processor;

verus! {

/// A span of source text: the source it belongs to, its file, its bounds and its line.
#[derive(Debug, PartialEq)]
pub struct AstPos {
    pub source: String,
    pub filename: String,
    pub start: usize,
    pub end: usize,
    pub line: usize,
}

impl Clone for AstPos {
    fn clone(&self) -> (res: Self)
        ensures
            res == *self,
    {
        AstPos {
            source: self.source.clone(),
            filename: self.filename.clone(),
            start: self.start,
            end: self.end,
            line: self.line,
        }
    }
}

impl AstPos {
    pub fn new(source: String, filename: String, start: usize, end: usize, line: usize) -> (res: Self)
        ensures
            res == (AstPos { source, filename, start, end, line }),
    {
        AstPos { source, filename, start, end, line }
    }

    /// The position of nothing: empty source and file name, covering `0..1` on line 0.
    pub fn empty() -> (res: Self)
        ensures
            res.source@ == Seq::<char>::empty(),
            res.filename@ == Seq::<char>::empty(),
            res.start == 0,
            res.end == 1,
            res.line == 0,
    {
        AstPos { source: String::new(), filename: String::new(), start: 0, end: 1, line: 0 }
    }
}

/// The position that a token covers.
pub open spec fn spec_tok_pos(tok: Token) -> AstPos {
    AstPos { source: tok.source, filename: tok.filename, start: tok.pos, end: tok.end, line: tok.line }
}

pub fn tok_pos(tok: &Token) -> (res: AstPos)
    ensures
        res == spec_tok_pos(*tok),
{
    AstPos::new(tok.source.clone(), tok.filename.clone(), tok.pos, tok.end, tok.line)
}

#[derive(Debug, Clone, Copy, PartialEq, Eq, Structural)]
pub enum Bits {
    B8,
    B16,
    B32,
    B64,
    Bsz,
    Any,
}

#[derive(Debug, Clone, Copy, PartialEq, Eq, Structural)]
pub enum StringKind {
    Slice,
    Raw,
    Char,
}

#[derive(Debug, PartialEq)]
pub struct FunctionParam {
    pub name: Option<Token>,
    pub type_: Expression,
    pub is_const: bool,
}

impl FunctionParam {
    pub fn new(name: Option<Token>, type_: Expression, is_const: bool) -> (res: Self)
        ensures
            res == (FunctionParam { name, type_, is_const }),
    {
        FunctionParam { name, type_, is_const }
    }
}

#[derive(Debug, PartialEq)]
pub struct StructField {
    pub name: Token,
    pub expr: Expression,
    pub bits: Option<Expression>,
    pub is_const: bool,
}

impl StructField {
    pub fn new(name: Token, expr: Expression, bits: Option<Expression>, is_const: bool) -> (res: Self)
        ensures
            res == (StructField { name, expr, bits, is_const }),
    {
        StructField { name, expr, bits, is_const }
    }
}

#[derive(Debug, PartialEq)]
pub struct EnumVariant {
    pub name: Token,
    pub type_: Expression,
    pub default: Option<Expression>,
}

impl EnumVariant {
    pub fn new(name: Token, type_: Expression, default: Option<Expression>) -> (res: Self)
        ensures
            res == (EnumVariant { name, type_, default }),
    {
        EnumVariant { name, type_, default }
    }
}

#[derive(Debug, PartialEq)]
pub struct SwitchCase {
    /// `None` for the default case.
    pub cases: Option<List<Expression>>,
    pub code: List<Statement>,
}

impl SwitchCase {
    pub fn new(cases: Option<List<Expression>>, code: List<Statement>) -> (res: Self)
        ensures
            res == (SwitchCase { cases, code }),
    {
        SwitchCase { cases, code }
    }
}

/// An expression of the source language. A float literal holds the IEEE-754 bit pattern
/// of its value; a sequence of subterms is a `List`.
#[derive(Debug, PartialEq)]
pub enum Expression {
    Binary { left: Box<Expression>, op: Token, right: Box<Expression> },
    SignedIntLiteral { value: i128, tok: Token, bits: Bits },
    UnsignedIntLiteral { value: u64, tok: Token, bits: Bits },
    FloatLiteral { value: u64, tok: Token, bits: Bits },
    StringLiteral { value: String, tok: Token, kind: StringKind },
    VoidLiteral(Token),
    Unary { op: Token, expr: Box<Expression>, is_prefix: bool },
    Grouping(Box<Expression>),
    Variable(Token),
    Assign { target: Box<Expression>, op: Token, value: Box<Expression> },
    /// callee, closing parenthesis, arguments, unpack
    Call(Box<Expression>, Token, List<Expression>, bool),
    FnPtr { kw: Token, return_type: Box<Expression>, params: List<FunctionParam> },
    Ternary {
        tok: Token,
        condition: Box<Expression>,
        then_expr: Box<Expression>,
        else_expr: Box<Expression>,
    },
    CompoundLiteral { type_: Box<Expression>, closing_brace: Token, fields: List<StructField> },
    Subscript { subscripted: Box<Expression>, paren: Token, args: List<Expression> },
    /// object, name
    Get(Box<Expression>, Token),
    /// object, name, gets_macro
    StaticGet(Option<Box<Expression>>, Token, bool),
    Slice { opening_brace: Token, items: List<Expression> },
    InMacro { inner: Box<Expression>, source: AstPos },
    MacroExpandedStatements { inner: List<Statement>, source: AstPos },
    Array { opening_brace: Token, item: Box<Expression>, size: Box<Expression> },
    ArrayLiteral { opening_brace: Token, items: List<Expression> },
}

#[derive(Debug, Clone, Copy, PartialEq, Eq, Structural)]
pub enum ImportType {
    Default,
    Ang,
    Lib,
}

#[derive(Debug, PartialEq)]
pub struct Generic {
    pub name: Token,
    pub bounds: Option<Expression>,
    pub default: Option<Expression>,
}

impl Generic {
    pub fn new(name: Token, bounds: Option<Expression>, default: Option<Expression>) -> (res: Self)
        ensures
            res == (Generic { name, bounds, default }),
    {
        Generic { name, bounds, default }
    }
}

#[derive(Debug, PartialEq)]
pub enum MacroParams {
    NoParams,
    Params(List<Token>),
    OneN(Token),
    ZeroN(Token),
}

#[derive(Debug, PartialEq)]
pub enum MacroBody {
    Binding(Expression),
    Expression(Expression),
    Block(List<Statement>),
}

#[derive(Debug, PartialEq)]
pub enum Statement {
    Empty,
    Expression(Expression),
    Break(Token),
    Continue(Token),
    Block(Token, List<Statement>),
    ImportedBlock { statements: List<Statement>, source: AstPos },
    While { kw: Token, condition: Expression, body: Box<Statement> },
    DoWhile { kw: Token, condition: Expression, body: Box<Statement> },
    Return { kw: Token, value: Option<Expression> },
    Impl { object: Expression, declarations: List<Statement> },
    Namespace { name: Token, body: List<Statement> },
    Defer { kw: Token, statement: Box<Statement> },
    Switch { kw: Token, expr: Expression, cases: List<SwitchCase> },
    Import { path: Token, type_: ImportType, is_include: bool },
    Macro { name: Token, params: MacroParams, body: MacroBody },
    VarDecl {
        name: Token,
        initializer: Option<Expression>,
        type_: Option<Expression>,
        is_const: bool,
        qualifiers: List<Token>,
    },
    If {
        kw: Token,
        condition: Expression,
        then_branch: Box<Statement>,
        else_branch: Option<Box<Statement>>,
    },
    For {
        kw: Token,
        initializer: Option<Box<Statement>>,
        condition: Expression,
        increments: List<Expression>,
        body: Box<Statement>,
    },
    Function {
        name: Token,
        params: List<FunctionParam>,
        return_type: Expression,
        body: Option<List<Statement>>,
        qualifiers: List<Token>,
        generics_names: List<Token>,
        bind: bool,
        init: bool,
    },
    Struct {
        name: Token,
        fields: List<StructField>,
        has_body: bool,
        binding: Option<Token>,
        generics_names: List<Token>,
        bind_typedefed: bool,
    },
    Use { use_expr: Expression, as_name: Token, typedef: bool, bind: bool },
    Enum {
        name: Token,
        kind_type: Expression,
        variants: List<EnumVariant>,
        is_simple: bool,
        has_body: bool,
        binding: Option<Token>,
        generics_names: List<Token>,
        bind_typedefed: bool,
    },
    Template {
        name: Token,
        declaration: Box<Statement>,
        generics: List<Generic>,
        generics_names: List<Token>,
    },
    Union {
        name: Token,
        fields: List<StructField>,
        has_body: bool,
        binding: Option<Token>,
        bind_typedefed: bool,
    },
    Foreach { kw: Token, variable_name: Token, iterator: Expression, body: Box<Statement> },
    Interface {
        name: Token,
        declarations: Option<List<Statement>>,
        types: Option<List<Expression>>,
    },
    Extern { kw: Token, libraries: List<Token> },
}

// ---------------------------------------------------------------------------------------------
// Copies equal to what they copy.
// ---------------------------------------------------------------------------------------------

pub fn clone_tokens(v: &List<Token>) -> (res: List<Token>)
    ensures
        res == *v,
    decreases v,
{
    match v {
        List::Nil => List::Nil,
        List::Cons(h, t) => List::Cons(Box::new((**h).clone()), Box::new(clone_tokens(t))),
    }
}

pub fn clone_opt_token(t: &Option<Token>) -> (res: Option<Token>)
    ensures
        res == *t,
{
    match t {
        Some(t) => Some(t.clone()),
        None => None,
    }
}

pub fn clone_exprs(v: &List<Expression>) -> (res: List<Expression>)
    ensures
        res == *v,
    decreases v, 0nat,
{
    match v {
        List::Nil => List::Nil,
        List::Cons(h, t) => List::Cons(Box::new(h.deep_clone()), Box::new(clone_exprs(t))),
    }
}

pub fn clone_stmts(v: &List<Statement>) -> (res: List<Statement>)
    ensures
        res == *v,
    decreases v, 0nat,
{
    match v {
        List::Nil => List::Nil,
        List::Cons(h, t) => List::Cons(Box::new(h.deep_clone()), Box::new(clone_stmts(t))),
    }
}

pub fn clone_opt_expr(e: &Option<Expression>) -> (res: Option<Expression>)
    ensures
        res == *e,
    decreases e, 0nat,
{
    match e {
        Some(inner) => Some(inner.deep_clone()),
        None => None,
    }
}

pub fn clone_params(v: &List<FunctionParam>) -> (res: List<FunctionParam>)
    ensures
        res == *v,
    decreases v, 0nat,
{
    match v {
        List::Nil => List::Nil,
        List::Cons(h, t) => List::Cons(
            Box::new(FunctionParam { name: clone_opt_token(&h.name), type_: h.type_.deep_clone(), is_const: h.is_const }),
            Box::new(clone_params(t)),
        ),
    }
}

pub fn clone_fields(v: &List<StructField>) -> (res: List<StructField>)
    ensures
        res == *v,
    decreases v, 0nat,
{
    match v {
        List::Nil => List::Nil,
        List::Cons(h, t) => List::Cons(
            Box::new(StructField { name: h.name.clone(), expr: h.expr.deep_clone(), bits: clone_opt_expr(&h.bits), is_const: h.is_const }),
            Box::new(clone_fields(t)),
        ),
    }
}

pub fn clone_variants(v: &List<EnumVariant>) -> (res: List<EnumVariant>)
    ensures
        res == *v,
    decreases v, 0nat,
{
    match v {
        List::Nil => List::Nil,
        List::Cons(h, t) => List::Cons(
            Box::new(EnumVariant { name: h.name.clone(), type_: h.type_.deep_clone(), default: clone_opt_expr(&h.default) }),
            Box::new(clone_variants(t)),
        ),
    }
}

pub fn clone_generics(v: &List<Generic>) -> (res: List<Generic>)
    ensures
        res == *v,
    decreases v, 0nat,
{
    match v {
        List::Nil => List::Nil,
        List::Cons(h, t) => List::Cons(
            Box::new(Generic { name: h.name.clone(), bounds: clone_opt_expr(&h.bounds), default: clone_opt_expr(&h.default) }),
            Box::new(clone_generics(t)),
        ),
    }
}

pub fn clone_opt_exprs(s: &Option<List<Expression>>) -> (res: Option<List<Expression>>)
    ensures
        res == *s,
    decreases s, 0nat,
{
    match s {
        Some(v) => Some(clone_exprs(v)),
        None => None,
    }
}

pub fn clone_opt_stmts(s: &Option<List<Statement>>) -> (res: Option<List<Statement>>)
    ensures
        res == *s,
    decreases s, 0nat,
{
    match s {
        Some(v) => Some(clone_stmts(v)),
        None => None,
    }
}

pub fn clone_opt_box_stmt(s: &Option<Box<Statement>>) -> (res: Option<Box<Statement>>)
    ensures
        res == *s,
    decreases s, 0nat,
{
    match s {
        Some(b) => Some(Box::new(b.deep_clone())),
        None => None,
    }
}

pub fn clone_cases(v: &List<SwitchCase>) -> (res: List<SwitchCase>)
    ensures
        res == *v,
    decreases v, 0nat,
{
    match v {
        List::Nil => List::Nil,
        List::Cons(h, t) => List::Cons(
            Box::new(SwitchCase { cases: clone_opt_exprs(&h.cases), code: clone_stmts(&h.code) }),
            Box::new(clone_cases(t)),
        ),
    }
}

impl Expression {
    /// A copy of this expression, equal to it.
    pub fn deep_clone(&self) -> (res: Expression)
        ensures
            res == *self,
        decreases self, 0nat,
    {
        match self {
            Expression::Binary { left, op, right } => Expression::Binary {
                left: Box::new(left.deep_clone()),
                op: op.clone(),
                right: Box::new(right.deep_clone()),
            },
            Expression::SignedIntLiteral { value, tok, bits } => Expression::SignedIntLiteral {
                value: *value,
                tok: tok.clone(),
                bits: *bits,
            },
            Expression::UnsignedIntLiteral { value, tok, bits } => Expression::UnsignedIntLiteral {
                value: *value,
                tok: tok.clone(),
                bits: *bits,
            },
            Expression::FloatLiteral { value, tok, bits } => Expression::FloatLiteral {
                value: *value,
                tok: tok.clone(),
                bits: *bits,
            },
            Expression::StringLiteral { value, tok, kind } => Expression::StringLiteral {
                value: value.clone(),
                tok: tok.clone(),
                kind: *kind,
            },
            Expression::VoidLiteral(tok) => Expression::VoidLiteral(tok.clone()),
            Expression::Unary { op, expr, is_prefix } => Expression::Unary {
                op: op.clone(),
                expr: Box::new(expr.deep_clone()),
                is_prefix: *is_prefix,
            },
            Expression::Grouping(inner) => Expression::Grouping(Box::new(inner.deep_clone())),
            Expression::Variable(tok) => Expression::Variable(tok.clone()),
            Expression::Assign { target, op, value } => Expression::Assign {
                target: Box::new(target.deep_clone()),
                op: op.clone(),
                value: Box::new(value.deep_clone()),
            },
            Expression::Call(callee, paren, args, unpack) => Expression::Call(
                Box::new(callee.deep_clone()),
                paren.clone(),
                clone_exprs(args),
                *unpack,
            ),
            Expression::FnPtr { kw, return_type, params } => Expression::FnPtr {
                kw: kw.clone(),
                return_type: Box::new(return_type.deep_clone()),
                params: clone_params(params),
            },
            Expression::Ternary { tok, condition, then_expr, else_expr } => Expression::Ternary {
                tok: tok.clone(),
                condition: Box::new(condition.deep_clone()),
                then_expr: Box::new(then_expr.deep_clone()),
                else_expr: Box::new(else_expr.deep_clone()),
            },
            Expression::CompoundLiteral { type_, closing_brace, fields } => Expression::CompoundLiteral {
                type_: Box::new(type_.deep_clone()),
                closing_brace: closing_brace.clone(),
                fields: clone_fields(fields),
            },
            Expression::Subscript { subscripted, paren, args } => Expression::Subscript {
                subscripted: Box::new(subscripted.deep_clone()),
                paren: paren.clone(),
                args: clone_exprs(args),
            },
            Expression::Get(object, name) => Expression::Get(Box::new(object.deep_clone()), name.clone()),
            Expression::StaticGet(object, name, gets_macro) => {
                let object = match object {
                    Some(o) => Some(Box::new(o.deep_clone())),
                    None => None,
                };
                Expression::StaticGet(object, name.clone(), *gets_macro)
            },
            Expression::Slice { opening_brace, items } => Expression::Slice {
                opening_brace: opening_brace.clone(),
                items: clone_exprs(items),
            },
            Expression::InMacro { inner, source } => Expression::InMacro {
                inner: Box::new(inner.deep_clone()),
                source: source.clone(),
            },
            Expression::MacroExpandedStatements { inner, source } => Expression::MacroExpandedStatements {
                inner: clone_stmts(inner),
                source: source.clone(),
            },
            Expression::Array { opening_brace, item, size } => Expression::Array {
                opening_brace: opening_brace.clone(),
                item: Box::new(item.deep_clone()),
                size: Box::new(size.deep_clone()),
            },
            Expression::ArrayLiteral { opening_brace, items } => Expression::ArrayLiteral {
                opening_brace: opening_brace.clone(),
                items: clone_exprs(items),
            },
        }
    }
}

impl MacroParams {
    pub fn deep_clone(&self) -> (res: MacroParams)
        ensures
            res == *self,
    {
        match self {
            MacroParams::NoParams => MacroParams::NoParams,
            MacroParams::Params(v) => MacroParams::Params(clone_tokens(v)),
            MacroParams::OneN(t) => MacroParams::OneN(t.clone()),
            MacroParams::ZeroN(t) => MacroParams::ZeroN(t.clone()),
        }
    }
}

impl MacroBody {
    pub fn deep_clone(&self) -> (res: MacroBody)
        ensures
            res == *self,
        decreases self, 0nat,
    {
        match self {
            MacroBody::Binding(e) => MacroBody::Binding(e.deep_clone()),
            MacroBody::Expression(e) => MacroBody::Expression(e.deep_clone()),
            MacroBody::Block(v) => MacroBody::Block(clone_stmts(v)),
        }
    }
}




impl Statement {
    /// A copy of this statement, equal to it.
    pub fn deep_clone(&self) -> (res: Statement)
        ensures
            res == *self,
        decreases self, 0nat,
    {
        match self {
            Statement::Empty => Statement::Empty,
            Statement::Expression(e) => Statement::Expression(e.deep_clone()),
            Statement::Break(t) => Statement::Break(t.clone()),
            Statement::Continue(t) => Statement::Continue(t.clone()),
            Statement::Block(t, v) => Statement::Block(t.clone(), clone_stmts(v)),
            Statement::ImportedBlock { statements, source } => Statement::ImportedBlock {
                statements: clone_stmts(statements),
                source: source.clone(),
            },
            Statement::While { kw, condition, body } => Statement::While {
                kw: kw.clone(),
                condition: condition.deep_clone(),
                body: Box::new(body.deep_clone()),
            },
            Statement::DoWhile { kw, condition, body } => Statement::DoWhile {
                kw: kw.clone(),
                condition: condition.deep_clone(),
                body: Box::new(body.deep_clone()),
            },
            Statement::Return { kw, value } => Statement::Return { kw: kw.clone(), value: clone_opt_expr(value) },
            Statement::Impl { object, declarations } => Statement::Impl {
                object: object.deep_clone(),
                declarations: clone_stmts(declarations),
            },
            Statement::Namespace { name, body } => Statement::Namespace { name: name.clone(), body: clone_stmts(body) },
            Statement::Defer { kw, statement } => Statement::Defer {
                kw: kw.clone(),
                statement: Box::new(statement.deep_clone()),
            },
            Statement::Switch { kw, expr, cases } => Statement::Switch {
                kw: kw.clone(),
                expr: expr.deep_clone(),
                cases: clone_cases(cases),
            },
            Statement::Import { path, type_, is_include } => Statement::Import {
                path: path.clone(),
                type_: *type_,
                is_include: *is_include,
            },
            Statement::Macro { name, params, body } => Statement::Macro {
                name: name.clone(),
                params: params.deep_clone(),
                body: body.deep_clone(),
            },
            Statement::VarDecl { name, initializer, type_, is_const, qualifiers } => Statement::VarDecl {
                name: name.clone(),
                initializer: clone_opt_expr(initializer),
                type_: clone_opt_expr(type_),
                is_const: *is_const,
                qualifiers: clone_tokens(qualifiers),
            },
            Statement::If { kw, condition, then_branch, else_branch } => Statement::If {
                kw: kw.clone(),
                condition: condition.deep_clone(),
                then_branch: Box::new(then_branch.deep_clone()),
                else_branch: clone_opt_box_stmt(else_branch),
            },
            Statement::For { kw, initializer, condition, increments, body } => Statement::For {
                kw: kw.clone(),
                initializer: clone_opt_box_stmt(initializer),
                condition: condition.deep_clone(),
                increments: clone_exprs(increments),
                body: Box::new(body.deep_clone()),
            },
            Statement::Function { name, params, return_type, body, qualifiers, generics_names, bind, init } => Statement::Function {
                name: name.clone(),
                params: clone_params(params),
                return_type: return_type.deep_clone(),
                body: clone_opt_stmts(body),
                qualifiers: clone_tokens(qualifiers),
                generics_names: clone_tokens(generics_names),
                bind: *bind,
                init: *init,
            },
            Statement::Struct { name, fields, has_body, binding, generics_names, bind_typedefed } => Statement::Struct {
                name: name.clone(),
                fields: clone_fields(fields),
                has_body: *has_body,
                binding: clone_opt_token(binding),
                generics_names: clone_tokens(generics_names),
                bind_typedefed: *bind_typedefed,
            },
            Statement::Use { use_expr, as_name, typedef, bind } => Statement::Use {
                use_expr: use_expr.deep_clone(),
                as_name: as_name.clone(),
                typedef: *typedef,
                bind: *bind,
            },
            Statement::Enum { name, kind_type, variants, is_simple, has_body, binding, generics_names, bind_typedefed } => Statement::Enum {
                name: name.clone(),
                kind_type: kind_type.deep_clone(),
                variants: clone_variants(variants),
                is_simple: *is_simple,
                has_body: *has_body,
                binding: clone_opt_token(binding),
                generics_names: clone_tokens(generics_names),
                bind_typedefed: *bind_typedefed,
            },
            Statement::Template { name, declaration, generics, generics_names } => Statement::Template {
                name: name.clone(),
                declaration: Box::new(declaration.deep_clone()),
                generics: clone_generics(generics),
                generics_names: clone_tokens(generics_names),
            },
            Statement::Union { name, fields, has_body, binding, bind_typedefed } => Statement::Union {
                name: name.clone(),
                fields: clone_fields(fields),
                has_body: *has_body,
                binding: clone_opt_token(binding),
                bind_typedefed: *bind_typedefed,
            },
            Statement::Foreach { kw, variable_name, iterator, body } => Statement::Foreach {
                kw: kw.clone(),
                variable_name: variable_name.clone(),
                iterator: iterator.deep_clone(),
                body: Box::new(body.deep_clone()),
            },
            Statement::Interface { name, declarations, types } => Statement::Interface {
                name: name.clone(),
                declarations: clone_opt_stmts(declarations),
                types: clone_opt_exprs(types),
            },
            Statement::Extern { kw, libraries } => Statement::Extern { kw: kw.clone(), libraries: clone_tokens(libraries) },
        }
    }
}

// ---------------------------------------------------------------------------------------------
// Inner expressions and assignment targets.
// ---------------------------------------------------------------------------------------------

/// The expression inside one layer of grouping or macro wrapping; any other expression itself.
pub open spec fn spec_inner(e: Expression) -> Expression {
    match e {
        Expression::Grouping(inner) => *inner,
        Expression::InMacro { inner, .. } => *inner,
        _ => e,
    }
}

/// Whether an expression can stand on the left of an assignment: a variable, a field access,
/// a static access, a subscript or a prefix dereference, possibly inside parentheses.
pub open spec fn spec_is_valid_assignment_target(e: Expression) -> bool
    decreases e,
{
    match e {
        Expression::Variable(_) => true,
        Expression::Get(..) => true,
        Expression::StaticGet(..) => true,
        Expression::Subscript { .. } => true,
        Expression::Unary { op, is_prefix, .. } => is_prefix && op.type_ == TokenType::Star,
        Expression::Grouping(inner) => spec_is_valid_assignment_target(*inner),
        _ => false,
    }
}

impl Expression {
    pub fn get_inner(&self) -> (res: Expression)
        ensures
            res == spec_inner(*self),
    {
        match self {
            Expression::Grouping(inner) => inner.deep_clone(),
            Expression::InMacro { inner, .. } => inner.deep_clone(),
            _ => self.deep_clone(),
        }
    }

    /// A reference to what `get_inner` returns a copy of.
    pub fn inner_ref(&self) -> (res: &Expression)
        ensures
            *res == spec_inner(*self),
    {
        match self {
            Expression::Grouping(inner) => inner,
            Expression::InMacro { inner, .. } => inner,
            _ => self,
        }
    }

    pub fn is_valid_assignment_target(&self) -> (res: bool)
        ensures
            res == spec_is_valid_assignment_target(*self),
        decreases self,
    {
        match self {
            Expression::Variable(_) | Expression::Get(..) | Expression::StaticGet(..) | Expression::Subscript { .. } => true,
            Expression::Unary { op, expr: _, is_prefix } => *is_prefix && op.type_ == TokenType::Star,
            Expression::Grouping(inner) => inner.is_valid_assignment_target(),
            _ => false,
        }
    }
}

// ---------------------------------------------------------------------------------------------
// Positions.
// ---------------------------------------------------------------------------------------------

/// Whether a position is defined for the expression: every sequence literal met on the way to
/// its first and last token holds at least one item (the parser never builds an empty one).
pub open spec fn has_pos(e: Expression) -> bool
    decreases e,
{
    match e {
        Expression::Grouping(inner) => has_pos(*inner),
        Expression::Binary { left, right, .. } => has_pos(*left) && has_pos(*right),
        Expression::Unary { expr, .. } => has_pos(*expr),
        Expression::Assign { target, value, .. } => has_pos(*target) && has_pos(*value),
        Expression::Call(callee, ..) => has_pos(*callee),
        Expression::FnPtr { return_type, .. } => has_pos(*return_type),
        Expression::Ternary { condition, else_expr, .. } => has_pos(*condition) && has_pos(*else_expr),
        Expression::CompoundLiteral { type_, .. } => has_pos(*type_),
        Expression::Subscript { subscripted, .. } => has_pos(*subscripted),
        Expression::Get(object, _) => has_pos(*object),
        Expression::StaticGet(object, ..) => match object {
            Some(o) => has_pos(*o),
            None => true,
        },
        Expression::Slice { items, .. } => has_pos_items(items),
        Expression::ArrayLiteral { items, .. } => has_pos_items(items),
        _ => true,
    }
}

/// A non-empty list whose first and last items have positions.
pub open spec fn has_pos_items(items: List<Expression>) -> bool
    decreases items,
{
    match items {
        List::Nil => false,
        List::Cons(h, t) => has_pos(*h) && match *t {
            List::Nil => true,
            List::Cons(..) => has_pos_last(*t),
        },
    }
}

pub open spec fn has_pos_last(items: List<Expression>) -> bool
    decreases items,
{
    match items {
        List::Nil => false,
        List::Cons(h, t) => match *t {
            List::Nil => has_pos(*h),
            List::Cons(..) => has_pos_last(*t),
        },
    }
}

/// The last item of a non-empty list.
pub open spec fn spec_last(items: List<Expression>) -> Expression
    decreases items,
{
    match items {
        List::Nil => arbitrary(),
        List::Cons(h, t) => match *t {
            List::Nil => *h,
            List::Cons(..) => spec_last(*t),
        },
    }
}

/// `outer` stretched to the end of `last` when both lie on the same line of the same file,
/// else `fallback`.
pub open spec fn span_pos(first: AstPos, last_end: usize, last_line: usize, last_file: String, fallback: AstPos) -> AstPos {
    if first.line != last_line || first.filename@ != last_file@ {
        fallback
    } else {
        AstPos { source: first.source, filename: first.filename, start: first.start, end: last_end, line: first.line }
    }
}

/// The source span that an expression covers.
pub open spec fn spec_pos(e: Expression) -> AstPos
    decreases e,
{
    match e {
        Expression::Grouping(inner) => spec_pos(*inner),
        Expression::InMacro { source, .. } => source,
        Expression::MacroExpandedStatements { source, .. } => source,
        Expression::SignedIntLiteral { tok, .. } => spec_tok_pos(tok),
        Expression::UnsignedIntLiteral { tok, .. } => spec_tok_pos(tok),
        Expression::FloatLiteral { tok, .. } => spec_tok_pos(tok),
        Expression::StringLiteral { tok, .. } => spec_tok_pos(tok),
        Expression::VoidLiteral(tok) => spec_tok_pos(tok),
        Expression::Variable(tok) => spec_tok_pos(tok),
        Expression::Binary { left, op, right } => {
            let l = spec_pos(*left);
            let r = spec_pos(*right);
            if l.line != r.line || l.filename@ != r.filename@ {
                l
            } else {
                AstPos { source: op.source, filename: op.filename, start: l.start, end: r.end, line: l.line }
            }
        },
        Expression::Unary { op, expr, is_prefix } => {
            let p = spec_pos(*expr);
            if is_prefix {
                if op.line != p.line || op.filename@ != p.filename@ {
                    spec_tok_pos(op)
                } else {
                    AstPos { source: op.source, filename: op.filename, start: op.pos, end: p.end, line: op.line }
                }
            } else {
                span_pos(p, op.end, op.line, op.filename, p)
            }
        },
        Expression::Assign { target, value, .. } => {
            let t = spec_pos(*target);
            let v = spec_pos(*value);
            span_pos(t, v.end, v.line, v.filename, t)
        },
        Expression::Call(callee, paren, ..) => {
            let c = spec_pos(*callee);
            span_pos(c, paren.end, paren.line, paren.filename, c)
        },
        Expression::FnPtr { kw, return_type, .. } => {
            let r = spec_pos(*return_type);
            if kw.line != r.line || kw.filename@ != r.filename@ {
                spec_tok_pos(kw)
            } else {
                AstPos { source: kw.source, filename: kw.filename, start: kw.pos, end: r.end, line: kw.line }
            }
        },
        Expression::Ternary { condition, else_expr, .. } => {
            let c = spec_pos(*condition);
            let e2 = spec_pos(*else_expr);
            span_pos(c, e2.end, e2.line, e2.filename, c)
        },
        Expression::CompoundLiteral { type_, closing_brace, .. } => {
            let t = spec_pos(*type_);
            span_pos(t, closing_brace.end, closing_brace.line, closing_brace.filename, t)
        },
        Expression::Subscript { subscripted, paren, .. } => {
            let sp = spec_pos(*subscripted);
            span_pos(sp, paren.end, paren.line, paren.filename, sp)
        },
        Expression::Get(object, name) => {
            let o = spec_pos(*object);
            span_pos(o, name.end, name.line, name.filename, spec_tok_pos(name))
        },
        Expression::StaticGet(object, name, _) => {
            let o = match object {
                Some(obj) => spec_pos(*obj),
                None => spec_tok_pos(name),
            };
            span_pos(o, name.end, name.line, name.filename, spec_tok_pos(name))
        },
        Expression::Slice { items, .. } => spec_items_pos(items),
        Expression::ArrayLiteral { items, .. } => spec_items_pos(items),
        Expression::Array { opening_brace, .. } => spec_tok_pos(opening_brace),
    }
}

/// The span from the first to the last item of a non-empty list of expressions.
pub open spec fn spec_items_pos(items: List<Expression>) -> AstPos
    decreases items,
{
    match items {
        List::Nil => arbitrary(),
        List::Cons(h, t) => match *t {
            List::Nil => spec_pos(*h),
            List::Cons(..) => {
                let f = spec_pos(*h);
                let l = spec_last_pos(*t);
                span_pos(f, l.end, l.line, l.filename, f)
            },
        },
    }
}

/// The position of the last item of a non-empty list.
pub open spec fn spec_last_pos(items: List<Expression>) -> AstPos
    decreases items,
{
    match items {
        List::Nil => arbitrary(),
        List::Cons(h, t) => match *t {
            List::Nil => spec_pos(*h),
            List::Cons(..) => spec_last_pos(*t),
        },
    }
}

fn same_place(line_a: usize, file_a: &String, line_b: usize, file_b: &String) -> (res: bool)
    ensures
        res == (line_a == line_b && file_a@ == file_b@),
{
    line_a == line_b && *file_a == *file_b
}

fn exec_span_pos(first: AstPos, last_end: usize, last_line: usize, last_file: &String, fallback: AstPos) -> (res: AstPos)
    ensures
        res == span_pos(first, last_end, last_line, *last_file, fallback),
{
    if !same_place(first.line, &first.filename, last_line, last_file) {
        fallback
    } else {
        AstPos { source: first.source, filename: first.filename, start: first.start, end: last_end, line: first.line }
    }
}

fn last_pos(items: &List<Expression>) -> (res: AstPos)
    requires
        has_pos_last(*items),
    ensures
        res == spec_last_pos(*items),
    decreases items,
{
    match items {
        List::Nil => AstPos::empty(),
        List::Cons(h, t) => match &**t {
            List::Nil => h.get_pos(),
            List::Cons(..) => last_pos(t),
        },
    }
}

fn items_pos(items: &List<Expression>) -> (res: AstPos)
    requires
        has_pos_items(*items),
    ensures
        res == spec_items_pos(*items),
    decreases items,
{
    match items {
        List::Nil => AstPos::empty(),
        List::Cons(h, t) => match &**t {
            List::Nil => h.get_pos(),
            List::Cons(..) => {
                let f = h.get_pos();
                let l = last_pos(t);
                exec_span_pos(f.clone(), l.end, l.line, &l.filename, f)
            },
        },
    }
}

impl Expression {
    /// The source span that this expression covers.
    pub fn get_pos(&self) -> (res: AstPos)
        requires
            has_pos(*self),
        ensures
            res == spec_pos(*self),
        decreases self,
    {
        match self {
            Expression::Grouping(expr) => expr.get_pos(),
            Expression::InMacro { source, .. } | Expression::MacroExpandedStatements { source, .. } => source.clone(),
            Expression::SignedIntLiteral { tok, .. }
            | Expression::UnsignedIntLiteral { tok, .. }
            | Expression::FloatLiteral { tok, .. }
            | Expression::StringLiteral { tok, .. }
            | Expression::VoidLiteral(tok)
            | Expression::Variable(tok) => tok_pos(tok),
            Expression::Binary { left, op, right } => {
                let left_pos = left.get_pos();
                let right_pos = right.get_pos();

                if !same_place(left_pos.line, &left_pos.filename, right_pos.line, &right_pos.filename) {
                    left_pos
                } else {
                    AstPos::new(op.source.clone(), op.filename.clone(), left_pos.start, right_pos.end, left_pos.line)
                }
            },
            Expression::Unary { op, expr, is_prefix } => {
                let expr_pos = expr.get_pos();

                if *is_prefix {
                    if !same_place(op.line, &op.filename, expr_pos.line, &expr_pos.filename) {
                        tok_pos(op)
                    } else {
                        AstPos::new(op.source.clone(), op.filename.clone(), op.pos, expr_pos.end, op.line)
                    }
                } else {
                    exec_span_pos(expr_pos.clone(), op.end, op.line, &op.filename, expr_pos)
                }
            },
            Expression::Assign { target, op: _, value } => {
                let target_pos = target.get_pos();
                let value_pos = value.get_pos();
                exec_span_pos(target_pos.clone(), value_pos.end, value_pos.line, &value_pos.filename, target_pos)
            },
            Expression::Call(callee, paren, ..) => {
                let callee_pos = callee.get_pos();
                exec_span_pos(callee_pos.clone(), paren.end, paren.line, &paren.filename, callee_pos)
            },
            Expression::FnPtr { kw, return_type, params: _ } => {
                let return_type_pos = return_type.get_pos();

                if !same_place(kw.line, &kw.filename, return_type_pos.line, &return_type_pos.filename) {
                    tok_pos(kw)
                } else {
                    AstPos::new(kw.source.clone(), kw.filename.clone(), kw.pos, return_type_pos.end, kw.line)
                }
            },
            Expression::Ternary { tok: _, condition, then_expr: _, else_expr } => {
                let cond_pos = condition.get_pos();
                let else_pos = else_expr.get_pos();
                exec_span_pos(cond_pos.clone(), else_pos.end, else_pos.line, &else_pos.filename, cond_pos)
            },
            Expression::CompoundLiteral { type_, closing_brace, fields: _ } => {
                let struct_pos = type_.get_pos();
                exec_span_pos(struct_pos.clone(), closing_brace.end, closing_brace.line, &closing_brace.filename, struct_pos)
            },
            Expression::Subscript { subscripted, paren, args: _ } => {
                let subscripted_pos = subscripted.get_pos();
                exec_span_pos(subscripted_pos.clone(), paren.end, paren.line, &paren.filename, subscripted_pos)
            },
            Expression::Get(object, name) => {
                let object_pos = object.get_pos();
                exec_span_pos(object_pos, name.end, name.line, &name.filename, tok_pos(name))
            },
            Expression::StaticGet(object, name, _) => {
                let object_pos = match object {
                    Some(object) => object.get_pos(),
                    None => tok_pos(name),
                };
                exec_span_pos(object_pos, name.end, name.line, &name.filename, tok_pos(name))
            },
            Expression::Slice { items, .. } | Expression::ArrayLiteral { items, .. } => items_pos(items),
            Expression::Array { opening_brace, .. } => tok_pos(opening_brace),
        }
    }
}

impl Statement {
    /// The source position of a statement: that of its expression or of its first token.
    pub fn get_pos(&self) -> (res: AstPos)
        requires
            self is Expression ==> has_pos(self->Expression_0),
            self is Impl ==> has_pos(self->Impl_object),
            self is Use ==> has_pos(self->Use_use_expr),
        ensures
            !(self is Empty) ==> res == spec_stmt_pos(*self),
            self is Empty ==> res.source@ == Seq::<char>::empty() && res.filename@ == Seq::<char>::empty()
                && res.start == 0 && res.end == 0 && res.line == 0,
    {
        match self {
            Statement::ImportedBlock { source, .. } => source.clone(),
            Statement::Empty => AstPos::new(String::new(), String::new(), 0, 0, 0),
            Statement::Expression(expr) | Statement::Impl { object: expr, declarations: _ } | Statement::Use { use_expr: expr, .. } => expr.get_pos(),
            Statement::VarDecl { name: tok, .. }
            | Statement::Block(tok, _)
            | Statement::If { kw: tok, .. }
            | Statement::While { kw: tok, .. }
            | Statement::For { kw: tok, .. }
            | Statement::DoWhile { kw: tok, .. }
            | Statement::Function { name: tok, .. }
            | Statement::Return { kw: tok, .. }
            | Statement::Struct { name: tok, .. }
            | Statement::Namespace { name: tok, .. }
            | Statement::Enum { name: tok, .. }
            | Statement::Defer { kw: tok, .. }
            | Statement::Switch { kw: tok, .. }
            | Statement::Template { name: tok, .. }
            | Statement::Break(tok)
            | Statement::Continue(tok)
            | Statement::Import { path: tok, .. }
            | Statement::Union { name: tok, .. }
            | Statement::Macro { name: tok, .. }
            | Statement::Foreach { kw: tok, .. }
            | Statement::Interface { name: tok, .. }
            | Statement::Extern { kw: tok, .. } => tok_pos(tok),
        }
    }
}

/// The position of a statement other than the empty one.
pub open spec fn spec_stmt_pos(s: Statement) -> AstPos {
    match s {
        Statement::ImportedBlock { source, .. } => source,
        Statement::Empty => arbitrary(),
        Statement::Expression(e) => spec_pos(e),
        Statement::Impl { object, .. } => spec_pos(object),
        Statement::Use { use_expr, .. } => spec_pos(use_expr),
        Statement::VarDecl { name, .. } => spec_tok_pos(name),
        Statement::Block(tok, _) => spec_tok_pos(tok),
        Statement::If { kw, .. } => spec_tok_pos(kw),
        Statement::While { kw, .. } => spec_tok_pos(kw),
        Statement::For { kw, .. } => spec_tok_pos(kw),
        Statement::DoWhile { kw, .. } => spec_tok_pos(kw),
        Statement::Function { name, .. } => spec_tok_pos(name),
        Statement::Return { kw, .. } => spec_tok_pos(kw),
        Statement::Struct { name, .. } => spec_tok_pos(name),
        Statement::Namespace { name, .. } => spec_tok_pos(name),
        Statement::Enum { name, .. } => spec_tok_pos(name),
        Statement::Defer { kw, .. } => spec_tok_pos(kw),
        Statement::Switch { kw, .. } => spec_tok_pos(kw),
        Statement::Template { name, .. } => spec_tok_pos(name),
        Statement::Break(tok) => spec_tok_pos(tok),
        Statement::Continue(tok) => spec_tok_pos(tok),
        Statement::Import { path, .. } => spec_tok_pos(path),
        Statement::Union { name, .. } => spec_tok_pos(name),
        Statement::Macro { name, .. } => spec_tok_pos(name),
        Statement::Foreach { kw, .. } => spec_tok_pos(kw),
        Statement::Interface { name, .. } => spec_tok_pos(name),
        Statement::Extern { kw, .. } => spec_tok_pos(kw),
    }
}

} // verus!
