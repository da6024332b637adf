//! Constant folding on the syntax tree: literal operands of unary, binary, ternary, subscript
//! and `if` forms are evaluated at compile time, with overflow reported as an error.

use vstd::prelude::*;

use crate::ast::{
    spec_inner, AstPos, Bits, EnumVariant, Expression, FunctionParam, Generic, MacroBody, Statement, StructField,
    SwitchCase,
};
use crate::diagnostics::{
    error_at, error_count, lemma_error_count_append, note_at, note_at_pos, Diagnostic, DiagnosticKind,
    Message, Site,
};
use crate::list::List;
use crate::tokens::{Token, TokenType};

verus! {

/// `2^63`: a literal above it does not fit in `i64`.
pub const SIGNED_LIMIT: i128 = 9223372036854775808i128;

/// The bit of an IEEE-754 double that holds its sign.
pub const F64_SIGN_BIT: u64 = 0x8000_0000_0000_0000u64;

/// What folding a tree gives: the new tree, the diagnostics reported on the way, and whether
/// folding completes (it does not on the inputs on which it would stop the program).
pub struct Folded<T> {
    pub val: T,
    pub diags: Seq<Diagnostic>,
    pub ok: bool,
}

// ---------------------------------------------------------------------------------------------
// Integer ranges.
// ---------------------------------------------------------------------------------------------

pub open spec fn smin(b: Bits) -> int {
    match b {
        Bits::B8 => -128,
        Bits::B16 => -32768,
        Bits::B32 => -2147483648,
        _ => -9223372036854775808,
    }
}

pub open spec fn smax(b: Bits) -> int {
    match b {
        Bits::B8 => 127,
        Bits::B16 => 32767,
        Bits::B32 => 2147483647,
        _ => 9223372036854775807,
    }
}

pub open spec fn umax(b: Bits) -> int {
    match b {
        Bits::B8 => 255,
        Bits::B16 => 65535,
        Bits::B32 => 4294967295,
        _ => 18446744073709551615,
    }
}

/// A signed value cut to the width of `b`, as the machine cuts it.
pub open spec fn strunc(b: Bits, v: i128) -> int {
    match b {
        Bits::B8 => (v as i8) as int,
        Bits::B16 => (v as i16) as int,
        Bits::B32 => (v as i32) as int,
        _ => (v as i64) as int,
    }
}

/// An unsigned value cut to the width of `b`, as the machine cuts it.
pub open spec fn utrunc(b: Bits, v: u64) -> int {
    match b {
        Bits::B8 => (v as u8) as int,
        Bits::B16 => (v as u16) as int,
        Bits::B32 => (v as u32) as int,
        _ => v as int,
    }
}

pub open spec fn is_sized(b: Bits) -> bool {
    b == Bits::B8 || b == Bits::B16 || b == Bits::B32 || b == Bits::B64
}

pub open spec fn in_range(lo: int, v: int, hi: int) -> Option<int> {
    if lo <= v && v <= hi {
        Some(v)
    } else {
        None
    }
}

/// `a + r` or `a - r` in the signed type of width `b`, where `a` is the left operand cut to that
/// width and `r` must fit it: `None` when `r` does not fit or the result overflows.
pub open spec fn signed_op(b: Bits, lv: i128, r: int, sub: bool) -> Option<int> {
    if r < smin(b) || r > smax(b) {
        None
    } else {
        let a = strunc(b, lv);
        in_range(smin(b), if sub { a - r } else { a + r }, smax(b))
    }
}

/// `a + r` or `a - r` in the unsigned type of width `b`, where `a` is the left operand cut to
/// that width and `r` must fit it.
pub open spec fn unsigned_op(b: Bits, lv: u64, r: int, sub: bool) -> Option<int> {
    if r > umax(b) {
        None
    } else {
        let a = utrunc(b, lv);
        in_range(0, if sub { a - r } else { a + r }, umax(b))
    }
}

/// What a binary `+` or `-` on two literals folds to.
pub enum Arith {
    NoFold,
    Stops,
    /// The folded value, and whether the operation overflowed (the value is then 0).
    Value { value: int, overflowed: bool },
}

pub open spec fn arith_of(o: Option<int>) -> Arith {
    match o {
        Some(v) => Arith::Value { value: v, overflowed: false },
        None => Arith::Value { value: 0, overflowed: true },
    }
}

/// A signed literal `lv` of width `lb` on the left.
pub open spec fn signed_left_arith(sub: bool, lb: Bits, lv: i128, right: Expression) -> Arith {
    match right {
        Expression::SignedIntLiteral { value: rv, .. } => {
            if is_sized(lb) {
                arith_of(signed_op(lb, lv, rv as int, sub))
            } else if lb == Bits::Any {
                if lv > SIGNED_LIMIT {
                    if sub {
                        Arith::NoFold
                    } else {
                        arith_of(in_range(0, lv + rv, 18446744073709551615))
                    }
                } else {
                    arith_of(signed_op(Bits::B64, lv, rv as int, sub))
                }
            } else {
                Arith::Stops
            }
        },
        Expression::UnsignedIntLiteral { value: rv, .. } => {
            if is_sized(lb) {
                arith_of(signed_op(lb, lv, rv as int, sub))
            } else if lb == Bits::Any {
                if lv > SIGNED_LIMIT {
                    let a = (lv as u64) as int;
                    arith_of(in_range(0, if sub { a - rv } else { a + rv }, 18446744073709551615))
                } else {
                    arith_of(signed_op(Bits::B64, lv, rv as int, sub))
                }
            } else {
                Arith::Stops
            }
        },
        _ => Arith::NoFold,
    }
}

/// An unsigned literal `lv` of width `lb` on the left.
pub open spec fn unsigned_left_arith(sub: bool, lb: Bits, lv: u64, right: Expression) -> Arith {
    match right {
        Expression::SignedIntLiteral { value: rv, .. } => {
            if sub {
                Arith::NoFold
            } else if is_sized(lb) {
                arith_of(in_range(0, lv + rv, umax(lb)))
            } else if lb == Bits::Bsz {
                Arith::NoFold
            } else {
                Arith::Stops
            }
        },
        Expression::UnsignedIntLiteral { value: rv, .. } => {
            if is_sized(lb) {
                arith_of(unsigned_op(lb, lv, rv as int, sub))
            } else if lb == Bits::Bsz {
                Arith::NoFold
            } else {
                Arith::Stops
            }
        },
        _ => Arith::NoFold,
    }
}

/// The literal that a folded value of a signed left operand becomes: unsigned above `2^63`.
pub open spec fn signed_result(value: int, tok: Token, bits: Bits) -> Expression {
    if value > SIGNED_LIMIT {
        Expression::UnsignedIntLiteral { value: value as u64, tok, bits }
    } else {
        Expression::SignedIntLiteral { value: value as i128, tok, bits }
    }
}

/// Folding of the binary expression `e`, whose operands are already folded.
pub open spec fn fold_binary(e: Expression) -> Folded<Expression> {
    match e {
        Expression::Binary { left, op, right } => {
            let sub = op.type_ == TokenType::Minus;
            if op.type_ == TokenType::Plus || sub {
                let (arith, tok, bits, signed) = match spec_inner(*left) {
                    Expression::SignedIntLiteral { value, tok, bits } => (
                        signed_left_arith(sub, bits, value, spec_inner(*right)),
                        tok,
                        bits,
                        true,
                    ),
                    Expression::UnsignedIntLiteral { value, tok, bits } => (
                        unsigned_left_arith(sub, bits, value, spec_inner(*right)),
                        tok,
                        bits,
                        false,
                    ),
                    _ => (Arith::NoFold, op, Bits::Any, false),
                };
                match arith {
                    Arith::NoFold => Folded { val: e, diags: Seq::empty(), ok: true },
                    Arith::Stops => Folded { val: e, diags: Seq::empty(), ok: false },
                    Arith::Value { value, overflowed } => Folded {
                        val: if signed {
                            signed_result(value, tok, bits)
                        } else {
                            Expression::UnsignedIntLiteral { value: value as u64, tok, bits }
                        },
                        diags: if overflowed {
                            seq![error_at(e, Message::OverflowingOperation)]
                        } else {
                            Seq::empty()
                        },
                        ok: true,
                    },
                }
            } else {
                Folded { val: e, diags: Seq::empty(), ok: true }
            }
        },
        _ => Folded { val: e, diags: Seq::empty(), ok: true },
    }
}

/// `~` on a signed literal of width `bits`.
pub open spec fn signed_not(value: i128, bits: Bits) -> i128 {
    match bits {
        Bits::B8 => (!(value as i8)) as i128,
        Bits::B16 => (!(value as i16)) as i128,
        Bits::B32 => (!(value as i32)) as i128,
        Bits::B64 => (!(value as i64)) as i128,
        _ => if value > SIGNED_LIMIT {
            (!(value as u64)) as i128
        } else {
            (!(value as i64)) as i128
        },
    }
}

/// `~` on an unsigned literal of width `bits`.
pub open spec fn unsigned_not(value: u64, bits: Bits) -> u64 {
    match bits {
        Bits::B8 => (!(value as u8)) as u64,
        Bits::B16 => (!(value as u16)) as u64,
        Bits::B32 => (!(value as u32)) as u64,
        _ => !value,
    }
}

/// Folding of the prefix unary expression `e`, whose operand is already folded.
pub open spec fn fold_unary(e: Expression) -> Folded<Expression> {
    let unchanged = Folded { val: e, diags: Seq::<Diagnostic>::empty(), ok: true };
    match e {
        Expression::Unary { op, expr, is_prefix } => {
            if !is_prefix {
                unchanged
            } else {
                let inner = spec_inner(*expr);
                if op.type_ == TokenType::Plus {
                    match inner {
                        Expression::SignedIntLiteral { .. } | Expression::UnsignedIntLiteral { .. }
                        | Expression::FloatLiteral { .. } => Folded { val: inner, diags: Seq::empty(), ok: true },
                        _ => unchanged,
                    }
                } else if op.type_ == TokenType::Tilde {
                    match inner {
                        Expression::SignedIntLiteral { value, tok, bits } => if bits == Bits::Bsz {
                            Folded { val: e, diags: Seq::empty(), ok: false }
                        } else {
                            Folded {
                                val: Expression::SignedIntLiteral { value: signed_not(value, bits), tok, bits },
                                diags: Seq::empty(),
                                ok: true,
                            }
                        },
                        Expression::UnsignedIntLiteral { value, tok, bits } => if bits == Bits::Any {
                            Folded { val: e, diags: Seq::empty(), ok: false }
                        } else if bits == Bits::Bsz {
                            unchanged
                        } else {
                            Folded {
                                val: Expression::UnsignedIntLiteral { value: unsigned_not(value, bits), tok, bits },
                                diags: Seq::empty(),
                                ok: true,
                            }
                        },
                        _ => unchanged,
                    }
                } else if op.type_ == TokenType::Minus {
                    match inner {
                        Expression::SignedIntLiteral { value, tok, bits } => if bits == Bits::Any && value
                            > SIGNED_LIMIT {
                            Folded {
                                val: e,
                                diags: seq![
                                    error_at(e, Message::NegatedUnsigned),
                                    note_at(e, Message::WillOverflow)
                                ],
                                ok: true,
                            }
                        } else if value == i128::MIN {
                            Folded { val: e, diags: Seq::empty(), ok: false }
                        } else {
                            Folded {
                                val: Expression::SignedIntLiteral { value: (-value) as i128, tok, bits },
                                diags: Seq::empty(),
                                ok: true,
                            }
                        },
                        Expression::UnsignedIntLiteral { .. } => Folded {
                            val: e,
                            diags: seq![error_at(e, Message::NegatedUnsigned), note_at(e, Message::WillOverflow)],
                            ok: true,
                        },
                        Expression::FloatLiteral { value, tok, bits } => Folded {
                            val: Expression::FloatLiteral { value: value ^ F64_SIGN_BIT, tok, bits },
                            diags: Seq::empty(),
                            ok: true,
                        },
                        _ => unchanged,
                    }
                } else if op.type_ == TokenType::Bang {
                    match inner {
                        Expression::SignedIntLiteral { value, tok, .. } => Folded {
                            val: Expression::UnsignedIntLiteral {
                                value: if value == 0 { 1 } else { 0 },
                                tok,
                                bits: Bits::B8,
                            },
                            diags: Seq::empty(),
                            ok: true,
                        },
                        Expression::UnsignedIntLiteral { value, tok, .. } => Folded {
                            val: Expression::UnsignedIntLiteral {
                                value: if value == 0 { 1 } else { 0 },
                                tok,
                                bits: Bits::B8,
                            },
                            diags: Seq::empty(),
                            ok: true,
                        },
                        _ => unchanged,
                    }
                } else {
                    unchanged
                }
            }
        },
        _ => unchanged,
    }
}

/// Folding of the prefix unary expression `e` by the basic folder: `~` flips every bit of the
/// literal whatever its width, and `-` on an unsigned literal reports the value it would wrap to.
pub open spec fn basic_unary(e: Expression) -> Folded<Expression> {
    let unchanged = Folded { val: e, diags: Seq::<Diagnostic>::empty(), ok: true };
    match e {
        Expression::Unary { op, expr, is_prefix } => {
            let inner = spec_inner(*expr);
            if !is_prefix {
                unchanged
            } else if op.type_ == TokenType::Tilde {
                match inner {
                    Expression::SignedIntLiteral { value, tok, bits } => Folded {
                        val: Expression::SignedIntLiteral { value: !value, tok, bits },
                        diags: Seq::empty(),
                        ok: true,
                    },
                    Expression::UnsignedIntLiteral { value, tok, bits } => Folded {
                        val: Expression::UnsignedIntLiteral { value: !value, tok, bits },
                        diags: Seq::empty(),
                        ok: true,
                    },
                    _ => unchanged,
                }
            } else if op.type_ == TokenType::Minus {
                match inner {
                    Expression::SignedIntLiteral { value, tok, bits } => if bits == Bits::Any && value
                        > SIGNED_LIMIT {
                        Folded {
                            val: e,
                            diags: seq![
                                error_at(e, Message::NegatedUnsigned),
                                note_at(e, Message::WillOverflowTo(wrapped_negation(value as u64)))
                            ],
                            ok: true,
                        }
                    } else {
                        fold_unary(e)
                    },
                    Expression::UnsignedIntLiteral { value, .. } => Folded {
                        val: e,
                        diags: seq![
                            error_at(e, Message::NegatedUnsigned),
                            note_at(e, Message::WillOverflowTo(wrapped_negation(value)))
                        ],
                        ok: true,
                    },
                    _ => fold_unary(e),
                }
            } else {
                fold_unary(e)
            }
        },
        _ => unchanged,
    }
}

/// `-v` in 64-bit unsigned arithmetic.
pub open spec fn wrapped_negation(v: u64) -> u64 {
    if v == 0 {
        0
    } else {
        (18446744073709551616 - v) as u64
    }
}

pub open spec fn fold_unary_in(basic: bool, e: Expression) -> Folded<Expression> {
    if basic {
        basic_unary(e)
    } else {
        fold_unary(e)
    }
}

/// The basic folder folds no binary operation.
pub open spec fn fold_binary_in(basic: bool, e: Expression) -> Folded<Expression> {
    if basic {
        done(e)
    } else {
        fold_binary(e)
    }
}

/// The items of a sequence literal.
pub open spec fn literal_items(e: Expression) -> Option<List<Expression>> {
    match e {
        Expression::Slice { items, .. } => Some(items),
        Expression::ArrayLiteral { items, .. } => Some(items),
        _ => None,
    }
}

/// Folding of the subscript expression `e`, whose parts are already folded: a literal index
/// into a sequence literal selects the item.
pub open spec fn fold_subscript(e: Expression) -> Folded<Expression> {
    let unchanged = Folded { val: e, diags: Seq::<Diagnostic>::empty(), ok: true };
    match e {
        Expression::Subscript { subscripted, args, .. } => {
            if args.seq().len() != 1 {
                unchanged
            } else {
                match literal_items(spec_inner(*subscripted)) {
                    None => unchanged,
                    Some(items) => {
                        let arg = args.seq()[0];
                        let index: Option<usize> = match spec_inner(arg) {
                            Expression::SignedIntLiteral { value, .. } => if value < 0 {
                                None
                            } else {
                                Some(value as usize)
                            },
                            Expression::UnsignedIntLiteral { value, .. } => Some(value as usize),
                            _ => None,
                        };
                        let negative = match spec_inner(arg) {
                            Expression::SignedIntLiteral { value, .. } => value < 0,
                            _ => false,
                        };
                        if negative {
                            Folded { val: e, diags: seq![error_at(arg, Message::NegativeIndex)], ok: true }
                        } else {
                            match index {
                                None => unchanged,
                                Some(index) => {
                                    let len = items.seq().len();
                                    if len > usize::MAX {
                                        Folded { val: e, diags: Seq::empty(), ok: false }
                                    } else if index > len {
                                        Folded {
                                            val: e,
                                            diags: seq![
                                                error_at(
                                                    arg,
                                                    Message::IndexOutOfBounds { index, length: len as usize },
                                                ),
                                                note_at(*subscripted, Message::CollectionLength(len as usize))
                                            ],
                                            ok: true,
                                        }
                                    } else if index == len {
                                        Folded { val: e, diags: Seq::empty(), ok: false }
                                    } else {
                                        Folded { val: items.seq()[index as int], diags: Seq::empty(), ok: true }
                                    }
                                },
                            }
                        }
                    },
                }
            }
        },
        _ => unchanged,
    }
}

/// The branch that a literal condition selects, if the condition is an integer literal.
pub open spec fn literal_truth(cond: Expression) -> Option<bool> {
    match spec_inner(cond) {
        Expression::SignedIntLiteral { value, .. } => Some(value != 0),
        Expression::UnsignedIntLiteral { value, .. } => Some(value != 0),
        _ => None,
    }
}

pub open spec fn macro_note(source: crate::ast::AstPos, inner: Seq<Diagnostic>) -> Seq<Diagnostic> {
    if error_count(inner) > 0 {
        seq![note_at_pos(source, Message::FromMacroExpansion)]
    } else {
        Seq::empty()
    }
}

pub open spec fn import_note(source: crate::ast::AstPos, inner: Seq<Diagnostic>) -> Seq<Diagnostic> {
    if error_count(inner) > 0 {
        seq![note_at_pos(source, Message::FromImport)]
    } else {
        Seq::empty()
    }
}

pub open spec fn done<T>(val: T) -> Folded<T> {
    Folded { val, diags: Seq::empty(), ok: true }
}

// ---------------------------------------------------------------------------------------------
// The whole fold, bottom-up.
// ---------------------------------------------------------------------------------------------

pub open spec fn fold_e(basic: bool, e: Expression) -> Folded<Expression>
    decreases e,
{
    match e {
        Expression::Grouping(inner) => {
            let i = fold_e(basic, *inner);
            Folded { val: Expression::Grouping(Box::new(i.val)), diags: i.diags, ok: i.ok }
        },
        Expression::Get(inner, name) => {
            let i = fold_e(basic, *inner);
            Folded { val: Expression::Get(Box::new(i.val), name), diags: i.diags, ok: i.ok }
        },
        Expression::StaticGet(inner, name, gets_macro) => match inner {
            Some(o) => {
                let i = fold_e(basic, *o);
                Folded { val: Expression::StaticGet(Some(Box::new(i.val)), name, gets_macro), diags: i.diags, ok: i.ok }
            },
            None => done(e),
        },
        Expression::Assign { target, op, value } => {
            let l = fold_e(basic, *target);
            let r = fold_e(basic, *value);
            Folded {
                val: Expression::Assign { target: Box::new(l.val), op, value: Box::new(r.val) },
                diags: l.diags + r.diags,
                ok: l.ok && r.ok,
            }
        },
        Expression::Array { opening_brace, item, size } => {
            let l = fold_e(basic, *item);
            let r = fold_e(basic, *size);
            Folded {
                val: Expression::Array { opening_brace, item: Box::new(l.val), size: Box::new(r.val) },
                diags: l.diags + r.diags,
                ok: l.ok && r.ok,
            }
        },
        Expression::Slice { opening_brace, items } => {
            let i = fold_es(basic, items);
            Folded { val: Expression::Slice { opening_brace, items: i.val }, diags: i.diags, ok: i.ok }
        },
        Expression::ArrayLiteral { opening_brace, items } => {
            let i = fold_es(basic, items);
            Folded { val: Expression::ArrayLiteral { opening_brace, items: i.val }, diags: i.diags, ok: i.ok }
        },
        Expression::Call(callee, paren, args, unpack) => {
            let c = fold_e(basic, *callee);
            let a = fold_es(basic, args);
            Folded {
                val: Expression::Call(Box::new(c.val), paren, a.val, unpack),
                diags: c.diags + a.diags,
                ok: c.ok && a.ok,
            }
        },
        Expression::CompoundLiteral { type_, closing_brace, fields } => {
            let t = fold_e(basic, *type_);
            let f = fold_fields(basic, fields);
            Folded {
                val: Expression::CompoundLiteral { type_: Box::new(t.val), closing_brace, fields: f.val },
                diags: t.diags + f.diags,
                ok: t.ok && f.ok,
            }
        },
        Expression::FnPtr { kw, return_type, params } => {
            let r = fold_e(basic, *return_type);
            let p = fold_params(basic, params);
            Folded {
                val: Expression::FnPtr { kw, return_type: Box::new(r.val), params: p.val },
                diags: r.diags + p.diags,
                ok: r.ok && p.ok,
            }
        },
        Expression::InMacro { inner, source } => {
            let i = fold_e(basic, *inner);
            Folded {
                val: Expression::InMacro { inner: Box::new(i.val), source },
                diags: i.diags + macro_note(source, i.diags),
                ok: i.ok,
            }
        },
        Expression::MacroExpandedStatements { inner, source } => {
            let i = fold_ss(basic, inner);
            Folded {
                val: Expression::MacroExpandedStatements { inner: i.val, source },
                diags: i.diags + macro_note(source, i.diags),
                ok: i.ok,
            }
        },
        Expression::Ternary { tok, condition, then_expr, else_expr } => {
            let c = fold_e(basic, *condition);
            let t = fold_e(basic, *then_expr);
            let f = fold_e(basic, *else_expr);
            Folded {
                val: match literal_truth(c.val) {
                    Some(true) => t.val,
                    Some(false) => f.val,
                    None => Expression::Ternary {
                        tok,
                        condition: Box::new(c.val),
                        then_expr: Box::new(t.val),
                        else_expr: Box::new(f.val),
                    },
                },
                diags: c.diags + t.diags + f.diags,
                ok: c.ok && t.ok && f.ok,
            }
        },
        Expression::Unary { op, expr, is_prefix } => {
            let i = fold_e(basic, *expr);
            let u = fold_unary_in(basic, Expression::Unary { op, expr: Box::new(i.val), is_prefix });
            Folded { val: u.val, diags: i.diags + u.diags, ok: i.ok && u.ok }
        },
        Expression::Subscript { subscripted, paren, args } => {
            let s = fold_e(basic, *subscripted);
            let a = fold_es(basic, args);
            let u = fold_subscript(Expression::Subscript { subscripted: Box::new(s.val), paren, args: a.val });
            Folded { val: u.val, diags: s.diags + a.diags + u.diags, ok: s.ok && a.ok && u.ok }
        },
        Expression::Binary { left, op, right } => {
            let l = fold_e(basic, *left);
            let r = fold_e(basic, *right);
            let u = fold_binary_in(basic, Expression::Binary { left: Box::new(l.val), op, right: Box::new(r.val) });
            Folded { val: u.val, diags: l.diags + r.diags + u.diags, ok: l.ok && r.ok && u.ok }
        },
        _ => done(e),
    }
}

pub open spec fn fold_es(basic: bool, l: List<Expression>) -> Folded<List<Expression>>
    decreases l,
{
    match l {
        List::Nil => done(List::Nil),
        List::Cons(h, t) => {
            let a = fold_e(basic, *h);
            let b = fold_es(basic, *t);
            Folded { val: List::Cons(Box::new(a.val), Box::new(b.val)), diags: a.diags + b.diags, ok: a.ok && b.ok }
        },
    }
}

pub open spec fn fold_opt_e(basic: bool, o: Option<Expression>) -> Folded<Option<Expression>>
    decreases o,
{
    match o {
        Some(e) => {
            let a = fold_e(basic, e);
            Folded { val: Some(a.val), diags: a.diags, ok: a.ok }
        },
        None => done(None),
    }
}

pub open spec fn fold_fields(basic: bool, l: List<StructField>) -> Folded<List<StructField>>
    decreases l,
{
    match l {
        List::Nil => done(List::Nil),
        List::Cons(h, t) => {
            let a = fold_e(basic, h.expr);
            let b = fold_fields(basic, *t);
            Folded {
                val: List::Cons(
                    Box::new(StructField { name: h.name, expr: a.val, bits: h.bits, is_const: h.is_const }),
                    Box::new(b.val),
                ),
                diags: a.diags + b.diags,
                ok: a.ok && b.ok,
            }
        },
    }
}

pub open spec fn fold_params(basic: bool, l: List<FunctionParam>) -> Folded<List<FunctionParam>>
    decreases l,
{
    match l {
        List::Nil => done(List::Nil),
        List::Cons(h, t) => {
            let a = fold_e(basic, h.type_);
            let b = fold_params(basic, *t);
            Folded {
                val: List::Cons(
                    Box::new(FunctionParam { name: h.name, type_: a.val, is_const: h.is_const }),
                    Box::new(b.val),
                ),
                diags: a.diags + b.diags,
                ok: a.ok && b.ok,
            }
        },
    }
}

pub open spec fn fold_variants(basic: bool, l: List<EnumVariant>) -> Folded<List<EnumVariant>>
    decreases l,
{
    match l {
        List::Nil => done(List::Nil),
        List::Cons(h, t) => {
            let a = fold_e(basic, h.type_);
            let b = fold_variants(basic, *t);
            Folded {
                val: List::Cons(
                    Box::new(EnumVariant { name: h.name, type_: a.val, default: h.default }),
                    Box::new(b.val),
                ),
                diags: a.diags + b.diags,
                ok: a.ok && b.ok,
            }
        },
    }
}

pub open spec fn fold_generics(basic: bool, l: List<Generic>) -> Folded<List<Generic>>
    decreases l,
{
    match l {
        List::Nil => done(List::Nil),
        List::Cons(h, t) => {
            let a = fold_opt_e(basic, h.bounds);
            let d = fold_opt_e(basic, h.default);
            let b = fold_generics(basic, *t);
            Folded {
                val: List::Cons(
                    Box::new(Generic { name: h.name, bounds: a.val, default: d.val }),
                    Box::new(b.val),
                ),
                diags: a.diags + d.diags + b.diags,
                ok: a.ok && d.ok && b.ok,
            }
        },
    }
}

pub open spec fn fold_opt_es(basic: bool, o: Option<List<Expression>>) -> Folded<Option<List<Expression>>>
    decreases o,
{
    match o {
        Some(l) => {
            let a = fold_es(basic, l);
            Folded { val: Some(a.val), diags: a.diags, ok: a.ok }
        },
        None => done(None),
    }
}

pub open spec fn fold_opt_ss(basic: bool, o: Option<List<Statement>>) -> Folded<Option<List<Statement>>>
    decreases o,
{
    match o {
        Some(l) => {
            let a = fold_ss(basic, l);
            Folded { val: Some(a.val), diags: a.diags, ok: a.ok }
        },
        None => done(None),
    }
}

pub open spec fn fold_cases(basic: bool, l: List<SwitchCase>) -> Folded<List<SwitchCase>>
    decreases l,
{
    match l {
        List::Nil => done(List::Nil),
        List::Cons(h, t) => {
            let c = fold_opt_es(basic, h.cases);
            let code = fold_ss(basic, h.code);
            let b = fold_cases(basic, *t);
            Folded {
                val: List::Cons(Box::new(SwitchCase { cases: c.val, code: code.val }), Box::new(b.val)),
                diags: c.diags + code.diags + b.diags,
                ok: c.ok && code.ok && b.ok,
            }
        },
    }
}

pub open spec fn fold_ss(basic: bool, l: List<Statement>) -> Folded<List<Statement>>
    decreases l,
{
    match l {
        List::Nil => done(List::Nil),
        List::Cons(h, t) => {
            let a = fold_s(basic, *h);
            let b = fold_ss(basic, *t);
            Folded { val: List::Cons(Box::new(a.val), Box::new(b.val)), diags: a.diags + b.diags, ok: a.ok && b.ok }
        },
    }
}

pub open spec fn fold_box_s(basic: bool, o: Option<Box<Statement>>) -> Folded<Option<Box<Statement>>>
    decreases o,
{
    match o {
        Some(s) => {
            let a = fold_s(basic, *s);
            Folded { val: Some(Box::new(a.val)), diags: a.diags, ok: a.ok }
        },
        None => done(None),
    }
}

pub open spec fn fold_s(basic: bool, s: Statement) -> Folded<Statement>
    decreases s,
{
    match s {
        Statement::Expression(e) => {
            let a = fold_e(basic, e);
            Folded { val: Statement::Expression(a.val), diags: a.diags, ok: a.ok }
        },
        Statement::Use { use_expr, as_name, typedef, bind } => {
            let a = fold_e(basic, use_expr);
            Folded { val: Statement::Use { use_expr: a.val, as_name, typedef, bind }, diags: a.diags, ok: a.ok }
        },
        Statement::Defer { kw, statement } => {
            let a = fold_s(basic, *statement);
            Folded { val: Statement::Defer { kw, statement: Box::new(a.val) }, diags: a.diags, ok: a.ok }
        },
        Statement::While { kw, condition, body } => {
            let c = fold_e(basic, condition);
            let b = fold_s(basic, *body);
            Folded {
                val: Statement::While { kw, condition: c.val, body: Box::new(b.val) },
                diags: c.diags + b.diags,
                ok: c.ok && b.ok,
            }
        },
        Statement::DoWhile { kw, condition, body } => {
            let c = fold_e(basic, condition);
            let b = fold_s(basic, *body);
            Folded {
                val: Statement::DoWhile { kw, condition: c.val, body: Box::new(b.val) },
                diags: c.diags + b.diags,
                ok: c.ok && b.ok,
            }
        },
        Statement::Foreach { kw, variable_name, iterator, body } => {
            let c = fold_e(basic, iterator);
            let b = fold_s(basic, *body);
            Folded {
                val: Statement::Foreach { kw, variable_name, iterator: c.val, body: Box::new(b.val) },
                diags: c.diags + b.diags,
                ok: c.ok && b.ok,
            }
        },
        Statement::Block(kw, body) => {
            let b = fold_ss(basic, body);
            Folded { val: Statement::Block(kw, b.val), diags: b.diags, ok: b.ok }
        },
        Statement::Namespace { name, body } => {
            let b = fold_ss(basic, body);
            Folded { val: Statement::Namespace { name, body: b.val }, diags: b.diags, ok: b.ok }
        },
        Statement::ImportedBlock { statements, source } => if basic {
            done(s)
        } else {
            let b = fold_ss(basic, statements);
            Folded {
                val: Statement::ImportedBlock { statements: b.val, source },
                diags: b.diags + import_note(source, b.diags),
                ok: b.ok,
            }
        },
        Statement::Struct { name, fields, has_body, binding, generics_names, bind_typedefed } => {
            let f = fold_fields(basic, fields);
            Folded {
                val: Statement::Struct { name, fields: f.val, has_body, binding, generics_names, bind_typedefed },
                diags: f.diags,
                ok: f.ok,
            }
        },
        Statement::Union { name, fields, has_body, binding, bind_typedefed } => {
            let f = fold_fields(basic, fields);
            Folded {
                val: Statement::Union { name, fields: f.val, has_body, binding, bind_typedefed },
                diags: f.diags,
                ok: f.ok,
            }
        },
        Statement::Return { kw, value } => {
            let v = fold_opt_e(basic, value);
            Folded { val: Statement::Return { kw, value: v.val }, diags: v.diags, ok: v.ok }
        },
        Statement::Impl { object, declarations } => {
            let o = fold_e(basic, object);
            let d = fold_ss(basic, declarations);
            Folded {
                val: Statement::Impl { object: o.val, declarations: d.val },
                diags: o.diags + d.diags,
                ok: o.ok && d.ok,
            }
        },
        Statement::Enum { name, kind_type, variants, is_simple, has_body, binding, generics_names, bind_typedefed } => {
            let k = fold_e(basic, kind_type);
            let v = fold_variants(basic, variants);
            Folded {
                val: Statement::Enum {
                    name,
                    kind_type: k.val,
                    variants: v.val,
                    is_simple,
                    has_body,
                    binding,
                    generics_names,
                    bind_typedefed,
                },
                diags: k.diags + v.diags,
                ok: k.ok && v.ok,
            }
        },
        Statement::VarDecl { name, initializer, type_, is_const, qualifiers } => {
            let i = fold_opt_e(basic, initializer);
            let t = fold_opt_e(basic, type_);
            Folded {
                val: Statement::VarDecl { name, initializer: i.val, type_: t.val, is_const, qualifiers },
                diags: i.diags + t.diags,
                ok: i.ok && t.ok,
            }
        },
        Statement::Macro { name, params, body } => {
            let b: Folded<MacroBody> = match body {
                MacroBody::Binding(e) => {
                    let a = fold_e(basic, e);
                    Folded { val: MacroBody::Binding(a.val), diags: a.diags, ok: a.ok }
                },
                MacroBody::Expression(e) => {
                    let a = fold_e(basic, e);
                    Folded { val: MacroBody::Expression(a.val), diags: a.diags, ok: a.ok }
                },
                MacroBody::Block(stmts) => {
                    let a = fold_ss(basic, stmts);
                    Folded { val: MacroBody::Block(a.val), diags: a.diags, ok: a.ok }
                },
            };
            Folded { val: Statement::Macro { name, params, body: b.val }, diags: b.diags, ok: b.ok }
        },
        Statement::Template { name, declaration, generics, generics_names } => {
            let d = fold_s(basic, *declaration);
            let g = fold_generics(basic, generics);
            Folded {
                val: Statement::Template { name, declaration: Box::new(d.val), generics: g.val, generics_names },
                diags: d.diags + g.diags,
                ok: d.ok && g.ok,
            }
        },
        Statement::For { kw, initializer, condition, increments, body } => {
            let c = fold_e(basic, condition);
            let b = fold_s(basic, *body);
            let i = fold_box_s(basic, initializer);
            let n = fold_es(basic, increments);
            Folded {
                val: Statement::For {
                    kw,
                    initializer: i.val,
                    condition: c.val,
                    increments: n.val,
                    body: Box::new(b.val),
                },
                diags: c.diags + b.diags + i.diags + n.diags,
                ok: c.ok && b.ok && i.ok && n.ok,
            }
        },
        Statement::Function { name, params, return_type, body, qualifiers, generics_names, bind, init } => {
            let r = fold_e(basic, return_type);
            let p = fold_params(basic, params);
            let b = fold_opt_ss(basic, body);
            Folded {
                val: Statement::Function {
                    name,
                    params: p.val,
                    return_type: r.val,
                    body: b.val,
                    qualifiers,
                    generics_names,
                    bind,
                    init,
                },
                diags: r.diags + p.diags + b.diags,
                ok: r.ok && p.ok && b.ok,
            }
        },
        Statement::Interface { name, declarations, types } => {
            let d = fold_opt_ss(basic, declarations);
            let t = fold_opt_es(basic, types);
            Folded {
                val: Statement::Interface { name, declarations: d.val, types: t.val },
                diags: d.diags + t.diags,
                ok: d.ok && t.ok,
            }
        },
        Statement::If { kw, condition, then_branch, else_branch } => if basic {
            done(s)
        } else {
            let c = fold_e(basic, condition);
            let t = fold_s(basic, *then_branch);
            let f = fold_box_s(basic, else_branch);
            Folded {
                val: match literal_truth(c.val) {
                    Some(true) => t.val,
                    Some(false) => match f.val {
                        Some(b) => *b,
                        None => Statement::Empty,
                    },
                    None => Statement::If { kw, condition: c.val, then_branch: Box::new(t.val), else_branch: f.val },
                },
                diags: c.diags + t.diags + f.diags,
                ok: c.ok && t.ok && f.ok,
            }
        },
        Statement::Switch { kw, expr, cases } => if basic {
            done(s)
        } else {
            let e2 = fold_e(basic, expr);
            let c = fold_cases(basic, cases);
            Folded { val: Statement::Switch { kw, expr: e2.val, cases: c.val }, diags: e2.diags + c.diags, ok: e2.ok && c.ok }
        },
        _ => done(s),
    }
}

/// Folding of a sequence of statements, first to last.
pub open spec fn fold_all(basic: bool, s: Seq<Statement>) -> Folded<Seq<Statement>>
    decreases s.len(),
{
    if s.len() == 0 {
        done(Seq::empty())
    } else {
        let a = fold_s(basic, s[0]);
        let b = fold_all(basic, s.drop_first());
        Folded { val: seq![a.val] + b.val, diags: a.diags + b.diags, ok: a.ok && b.ok }
    }
}

/// Folding a sequence folds each statement on its own: the result has one statement for each,
/// and folding completes exactly when it completes for each.
pub proof fn lemma_fold_all_each(basic: bool, s: Seq<Statement>)
    ensures
        fold_all(basic, s).val.len() == s.len(),
        forall|i: int| 0 <= i < s.len() ==> fold_all(basic, s).val[i] == #[trigger] fold_s(basic, s[i]).val,
        fold_all(basic, s).ok <==> forall|i: int| 0 <= i < s.len() ==> #[trigger] fold_s(basic, s[i]).ok,
    decreases s.len(),
{
    if s.len() > 0 {
        lemma_fold_all_each(basic, s.drop_first());
        let rest = s.drop_first();
        assert forall|i: int| 0 < i < s.len() implies fold_s(basic, s[i]) == fold_s(basic, rest[i - 1]) by {}
        if fold_all(basic, s).ok {
            assert forall|i: int| 0 <= i < s.len() implies #[trigger] fold_s(basic, s[i]).ok by {
                if i > 0 {
                    assert(fold_s(basic, rest[i - 1]).ok);
                }
            }
        }
        if forall|i: int| 0 <= i < s.len() ==> #[trigger] fold_s(basic, s[i]).ok {
            assert(fold_s(basic, s[0]).ok);
            assert forall|i: int| 0 <= i < rest.len() implies #[trigger] fold_s(basic, rest[i]).ok by {
                assert(fold_s(basic, s[i + 1]).ok);
            }
        }
    }
}

pub(crate) proof fn lemma_fold_list(basic: bool, l: List<Statement>)
    ensures
        fold_ss(basic, l).val.seq() == fold_all(basic, l.seq()).val,
        fold_ss(basic, l).diags == fold_all(basic, l.seq()).diags,
        fold_ss(basic, l).ok == fold_all(basic, l.seq()).ok,
    decreases l,
{
    l.lemma_seq_len();
    match l {
        List::Nil => {},
        List::Cons(h, t) => {
            lemma_fold_list(basic, *t);
            assert(l.seq().drop_first() == t.seq());
            assert(l.seq()[0] == *h);
        },
    }
}

// ---------------------------------------------------------------------------------------------
// The folder.
// ---------------------------------------------------------------------------------------------

/// Folds constants in a syntax tree and collects what it reports on the way.
pub struct ConstantFolder {
    pub errors: usize,
    pub diagnostics: Vec<Diagnostic>,
}

/// `after` is `before` with `diags` reported.
pub open spec fn reported(before: ConstantFolder, after: ConstantFolder, diags: Seq<Diagnostic>) -> bool {
    &&& after.diagnostics@ == before.diagnostics@ + diags
    &&& after.errors == before.errors + error_count(diags)
}

/// Folding that completes and whose errors can be counted.
pub open spec fn can_fold<T>(folder: ConstantFolder, f: Folded<T>) -> bool {
    f.ok && folder.errors + error_count(f.diags) <= usize::MAX
}

pub(crate) proof fn lemma_error_count_push(s: Seq<Diagnostic>, d: Diagnostic)
    ensures
        error_count(s.push(d)) == error_count(s) + if d.kind == DiagnosticKind::Error { 1nat } else { 0nat },
{
    assert(s.push(d).drop_last() =~= s);
}

pub(crate) proof fn lemma_error_count_pair(a: Diagnostic, b: Diagnostic)
    ensures
        error_count(seq![a, b]) == (if a.kind == DiagnosticKind::Error { 1nat } else { 0nat }) + (
        if b.kind == DiagnosticKind::Error { 1nat } else { 0nat }),
{
    lemma_error_count_push(Seq::empty(), a);
    assert(Seq::<Diagnostic>::empty().push(a) =~= seq![a]);
    lemma_error_count_push(seq![a], b);
    assert(seq![a].push(b) =~= seq![a, b]);
}

pub(crate) proof fn lemma_split2(a: Seq<Diagnostic>, b: Seq<Diagnostic>)
    ensures
        error_count(a + b) == error_count(a) + error_count(b),
{
    lemma_error_count_append(a, b);
}

pub(crate) proof fn lemma_split3(a: Seq<Diagnostic>, b: Seq<Diagnostic>, c: Seq<Diagnostic>)
    ensures
        error_count(a + b + c) == error_count(a) + error_count(b) + error_count(c),
{
    lemma_error_count_append(a, b);
    lemma_error_count_append(a + b, c);
}

pub(crate) proof fn lemma_split4(a: Seq<Diagnostic>, b: Seq<Diagnostic>, c: Seq<Diagnostic>, d: Seq<Diagnostic>)
    ensures
        error_count(a + b + c + d) == error_count(a) + error_count(b) + error_count(c) + error_count(d),
{
    lemma_split3(a, b, c);
    lemma_error_count_append(a + b + c, d);
}

pub(crate) proof fn lemma_reported_chain(x: ConstantFolder, y: ConstantFolder, z: ConstantFolder, a: Seq<Diagnostic>, b: Seq<Diagnostic>)
    requires
        reported(x, y, a),
        reported(y, z, b),
    ensures
        reported(x, z, a + b),
{
    lemma_error_count_append(a, b);
    assert(x.diagnostics@ + a + b =~= x.diagnostics@ + (a + b));
}

pub(crate) proof fn lemma_reported_chain3(
    s0: ConstantFolder,
    s1: ConstantFolder,
    s2: ConstantFolder,
    s3: ConstantFolder,
    a: Seq<Diagnostic>,
    b: Seq<Diagnostic>,
    c: Seq<Diagnostic>,
)
    requires
        reported(s0, s1, a),
        reported(s1, s2, b),
        reported(s2, s3, c),
    ensures
        reported(s0, s3, a + b + c),
{
    lemma_reported_chain(s0, s1, s2, a, b);
    lemma_reported_chain(s0, s2, s3, a + b, c);
}

pub(crate) proof fn lemma_reported_none(x: ConstantFolder)
    ensures
        reported(x, x, Seq::empty()),
{
    assert(x.diagnostics@ + Seq::<Diagnostic>::empty() =~= x.diagnostics@);
}

impl ConstantFolder {
    pub fn new() -> (res: Self)
        ensures
            res.errors == 0,
            res.diagnostics@ == Seq::<Diagnostic>::empty(),
    {
        ConstantFolder { errors: 0, diagnostics: Vec::new() }
    }

    /// Forgets the errors counted so far.
    pub fn reset(&mut self)
        ensures
            final(self).errors == 0,
            final(self).diagnostics == old(self).diagnostics,
    {
        self.errors = 0;
    }

    fn report(&mut self, d: Diagnostic)
        requires
            d.kind == DiagnosticKind::Error ==> old(self).errors < usize::MAX,
        ensures
            reported(*old(self), *final(self), seq![d]),
    {
        let ghost before = self.diagnostics@;
        proof {
            lemma_error_count_push(Seq::empty(), d);
            assert(Seq::<Diagnostic>::empty().push(d) =~= seq![d]);
            assert(before.push(d) =~= before + seq![d]);
        }
        if d.kind == DiagnosticKind::Error {
            self.errors = self.errors + 1;
        }
        self.diagnostics.push(d);
    }
}

// ---------------------------------------------------------------------------------------------
// Checked arithmetic on literals.
// ---------------------------------------------------------------------------------------------

/// An optional machine integer as an optional mathematical one.
pub open spec fn widen(o: Option<i128>) -> Option<int> {
    match o {
        Some(v) => Some(v as int),
        None => None,
    }
}

const U64_MAX: i128 = 18446744073709551615i128;

fn sized(b: Bits) -> (res: bool)
    ensures
        res == is_sized(b),
{
    b == Bits::B8 || b == Bits::B16 || b == Bits::B32 || b == Bits::B64
}

fn signed_range(b: Bits) -> (res: (i128, i128))
    ensures
        res.0 == smin(b),
        res.1 == smax(b),
{
    match b {
        Bits::B8 => (-128, 127),
        Bits::B16 => (-32768, 32767),
        Bits::B32 => (-2147483648, 2147483647),
        _ => (-9223372036854775808, 9223372036854775807),
    }
}

fn unsigned_max(b: Bits) -> (res: u64)
    ensures
        res == umax(b),
{
    match b {
        Bits::B8 => 255,
        Bits::B16 => 65535,
        Bits::B32 => 4294967295,
        _ => 18446744073709551615,
    }
}

fn truncate_signed(b: Bits, v: i128) -> (res: i128)
    ensures
        res == strunc(b, v),
        -9223372036854775808 <= res <= 9223372036854775807,
{
    match b {
        Bits::B8 => (v as i8) as i128,
        Bits::B16 => (v as i16) as i128,
        Bits::B32 => (v as i32) as i128,
        _ => (v as i64) as i128,
    }
}

fn truncate_unsigned(b: Bits, v: u64) -> (res: u64)
    ensures
        res == utrunc(b, v),
{
    match b {
        Bits::B8 => (v as u8) as u64,
        Bits::B16 => (v as u16) as u64,
        Bits::B32 => (v as u32) as u64,
        _ => v,
    }
}

fn checked_in(lo: i128, v: i128, hi: i128) -> (res: Option<i128>)
    ensures
        widen(res) == in_range(lo as int, v as int, hi as int),
{
    if lo <= v && v <= hi {
        Some(v)
    } else {
        None
    }
}

/// `a + b` when it lies in `0 ..= hi`, for a nonnegative `a`.
fn add_in_unsigned_range(a: i128, b: i128, hi: i128) -> (res: Option<i128>)
    requires
        0 <= a,
        0 <= hi <= U64_MAX,
    ensures
        widen(res) == in_range(0, a + b, hi as int),
{
    if b > hi || (b >= 0 && a > hi) {
        None
    } else {
        checked_in(0, a + b, hi)
    }
}

fn signed_checked_op(b: Bits, lv: i128, r: i128, sub: bool) -> (res: Option<i128>)
    ensures
        widen(res) == signed_op(b, lv, r as int, sub),
{
    let (lo, hi) = signed_range(b);
    if r < lo || r > hi {
        None
    } else {
        let a = truncate_signed(b, lv);
        let x = if sub { a - r } else { a + r };
        checked_in(lo, x, hi)
    }
}

fn unsigned_checked_op(b: Bits, lv: u64, r: u64, sub: bool) -> (res: Option<i128>)
    ensures
        widen(res) == unsigned_op(b, lv, r as int, sub),
{
    let hi = unsigned_max(b);
    if r > hi {
        None
    } else {
        let a = truncate_unsigned(b, lv) as i128;
        let x = if sub { a - r as i128 } else { a + r as i128 };
        checked_in(0, x, hi as i128)
    }
}

/// What a binary `+` or `-` folds to, as computed: no folding, or the value and whether the
/// operation overflowed.
enum Outcome {
    NoFold,
    Value(i128, bool),
}

spec fn outcome_is(o: Outcome, a: Arith) -> bool {
    match (o, a) {
        (Outcome::NoFold, Arith::NoFold) => true,
        (Outcome::Value(v, f), Arith::Value { value, overflowed }) => v == value && f == overflowed,
        _ => false,
    }
}

fn outcome_of(o: Option<i128>) -> (res: Outcome)
    ensures
        outcome_is(res, arith_of(widen(o))),
{
    match o {
        Some(v) => Outcome::Value(v, false),
        None => Outcome::Value(0, true),
    }
}

fn signed_left_outcome(sub: bool, lb: Bits, lv: i128, right: &Expression) -> (res: Outcome)
    requires
        !(signed_left_arith(sub, lb, lv, *right) is Stops),
    ensures
        outcome_is(res, signed_left_arith(sub, lb, lv, *right)),
{
    match right {
        Expression::SignedIntLiteral { value, .. } => {
            let rv = *value;
            if sized(lb) {
                outcome_of(signed_checked_op(lb, lv, rv, sub))
            } else if lb == Bits::Any {
                if lv > SIGNED_LIMIT {
                    if sub {
                        Outcome::NoFold
                    } else {
                        outcome_of(add_in_unsigned_range(lv, rv, U64_MAX))
                    }
                } else {
                    outcome_of(signed_checked_op(Bits::B64, lv, rv, sub))
                }
            } else {
                Outcome::NoFold
            }
        },
        Expression::UnsignedIntLiteral { value, .. } => {
            let rv = *value;
            if sized(lb) {
                outcome_of(signed_checked_op(lb, lv, rv as i128, sub))
            } else if lb == Bits::Any {
                if lv > SIGNED_LIMIT {
                    let a = (lv as u64) as i128;
                    let x = if sub { a - rv as i128 } else { a + rv as i128 };
                    outcome_of(checked_in(0, x, U64_MAX))
                } else {
                    outcome_of(signed_checked_op(Bits::B64, lv, rv as i128, sub))
                }
            } else {
                Outcome::NoFold
            }
        },
        _ => Outcome::NoFold,
    }
}

fn unsigned_left_outcome(sub: bool, lb: Bits, lv: u64, right: &Expression) -> (res: Outcome)
    requires
        !(unsigned_left_arith(sub, lb, lv, *right) is Stops),
    ensures
        outcome_is(res, unsigned_left_arith(sub, lb, lv, *right)),
{
    match right {
        Expression::SignedIntLiteral { value, .. } => {
            if sub || !sized(lb) {
                Outcome::NoFold
            } else {
                outcome_of(add_in_unsigned_range(lv as i128, *value, unsigned_max(lb) as i128))
            }
        },
        Expression::UnsignedIntLiteral { value, .. } => {
            if sized(lb) {
                outcome_of(unsigned_checked_op(lb, lv, *value, sub))
            } else {
                Outcome::NoFold
            }
        },
        _ => Outcome::NoFold,
    }
}

fn make_signed_result(value: i128, tok: Token, bits: Bits) -> (res: Expression)
    ensures
        res == signed_result(value as int, tok, bits),
{
    if value > SIGNED_LIMIT {
        Expression::UnsignedIntLiteral { value: value as u64, tok, bits }
    } else {
        Expression::SignedIntLiteral { value, tok, bits }
    }
}

fn negate_wrapping(v: u64) -> (res: u64)
    ensures
        res == wrapped_negation(v),
{
    if v == 0 {
        0
    } else {
        (18446744073709551615 - v) + 1
    }
}

fn exec_signed_not(value: i128, bits: Bits) -> (res: i128)
    ensures
        res == signed_not(value, bits),
{
    match bits {
        Bits::B8 => (!(value as i8)) as i128,
        Bits::B16 => (!(value as i16)) as i128,
        Bits::B32 => (!(value as i32)) as i128,
        Bits::B64 => (!(value as i64)) as i128,
        _ => if value > SIGNED_LIMIT {
            (!(value as u64)) as i128
        } else {
            (!(value as i64)) as i128
        },
    }
}

fn exec_unsigned_not(value: u64, bits: Bits) -> (res: u64)
    ensures
        res == unsigned_not(value, bits),
{
    match bits {
        Bits::B8 => (!(value as u8)) as u64,
        Bits::B16 => (!(value as u16)) as u64,
        Bits::B32 => (!(value as u32)) as u64,
        _ => !value,
    }
}

fn error_diag(e: &Expression, message: Message) -> (res: Diagnostic)
    ensures
        res == error_at(*e, message),
{
    Diagnostic { kind: DiagnosticKind::Error, site: Site::Expr(e.deep_clone()), message }
}

fn note_diag(e: &Expression, message: Message) -> (res: Diagnostic)
    ensures
        res == note_at(*e, message),
{
    Diagnostic { kind: DiagnosticKind::Note, site: Site::Expr(e.deep_clone()), message }
}

fn single<T>(l: &List<T>) -> (res: Option<&T>)
    ensures
        res is Some <==> l.seq().len() == 1,
        res is Some ==> *res->0 == l.seq()[0],
{
    proof { l.lemma_seq_len(); }
    match l {
        List::Cons(h, t) => match &**t {
            List::Nil => Some(&**h),
            List::Cons(..) => {
                proof { t.lemma_seq_len(); }
                None
            },
        },
        List::Nil => None,
    }
}

impl ConstantFolder {
    /// Reports an error and then a note about the same expression.
    fn report_pair(&mut self, e: &Expression, error: Message, note: Message)
        requires
            old(self).errors + error_count(seq![error_at(*e, error), note_at(*e, note)]) <= usize::MAX,
        ensures
            reported(*old(self), *final(self), seq![error_at(*e, error), note_at(*e, note)]),
    {
        proof { lemma_error_count_pair(error_at(*e, error), note_at(*e, note)); }
        let ghost s0 = *self;
        self.report(error_diag(e, error));
        let ghost s1 = *self;
        self.report(note_diag(e, note));
        proof {
            lemma_reported_chain(s0, s1, *self, seq![error_at(*e, error)], seq![note_at(*e, note)]);
            assert(seq![error_at(*e, error)] + seq![note_at(*e, note)] =~= seq![error_at(*e, error), note_at(*e, note)]);
        }
    }

    fn fold_binary_node(&mut self, basic: bool, e: Expression) -> (res: Expression)
        requires
            fold_binary_in(basic, e).ok,
            old(self).errors + error_count(fold_binary_in(basic, e).diags) <= usize::MAX,
        ensures
            res == fold_binary_in(basic, e).val,
            reported(*old(self), *final(self), fold_binary_in(basic, e).diags),
    {
        proof { lemma_reported_none(*self); }
        if basic {
            return e;
        }
        let (outcome, tok, bits, signed) = match &e {
            Expression::Binary { left, op, right } => {
                let sub = op.type_ == TokenType::Minus;
                if op.type_ == TokenType::Plus || sub {
                    match left.inner_ref() {
                        Expression::SignedIntLiteral { value, tok, bits } => (
                            signed_left_outcome(sub, *bits, *value, right.inner_ref()),
                            tok.clone(),
                            *bits,
                            true,
                        ),
                        Expression::UnsignedIntLiteral { value, tok, bits } => (
                            unsigned_left_outcome(sub, *bits, *value, right.inner_ref()),
                            tok.clone(),
                            *bits,
                            false,
                        ),
                        _ => {
                            return e;
                        },
                    }
                } else {
                    return e;
                }
            },
            _ => {
                return e;
            },
        };
        match outcome {
            Outcome::NoFold => e,
            Outcome::Value(value, overflowed) => {
                if overflowed {
                    proof { lemma_error_count_push(Seq::empty(), error_at(e, Message::OverflowingOperation)); }
                    self.report(error_diag(&e, Message::OverflowingOperation));
                }
                if signed {
                    make_signed_result(value, tok, bits)
                } else {
                    Expression::UnsignedIntLiteral { value: value as u64, tok, bits }
                }
            },
        }
    }

    fn fold_unary_node(&mut self, basic: bool, e: Expression) -> (res: Expression)
        requires
            fold_unary_in(basic, e).ok,
            old(self).errors + error_count(fold_unary_in(basic, e).diags) <= usize::MAX,
        ensures
            res == fold_unary_in(basic, e).val,
            reported(*old(self), *final(self), fold_unary_in(basic, e).diags),
    {
        if basic {
            self.basic_unary_node(e)
        } else {
            self.full_unary_node(e)
        }
    }

    fn basic_unary_node(&mut self, e: Expression) -> (res: Expression)
        requires
            basic_unary(e).ok,
            old(self).errors + error_count(basic_unary(e).diags) <= usize::MAX,
        ensures
            res == basic_unary(e).val,
            reported(*old(self), *final(self), basic_unary(e).diags),
    {
        let (op_type, inner) = match &e {
            Expression::Unary { op, expr, is_prefix } => {
                if !*is_prefix {
                    proof { lemma_reported_none(*self); }
                    return e;
                }
                (op.type_, expr.get_inner())
            },
            _ => {
                proof { lemma_reported_none(*self); }
                return e;
            },
        };
        if op_type == TokenType::Tilde {
            proof { lemma_reported_none(*self); }
            match inner {
                Expression::SignedIntLiteral { value, tok, bits } => Expression::SignedIntLiteral {
                    value: !value,
                    tok,
                    bits,
                },
                Expression::UnsignedIntLiteral { value, tok, bits } => Expression::UnsignedIntLiteral {
                    value: !value,
                    tok,
                    bits,
                },
                _ => e,
            }
        } else if op_type == TokenType::Minus {
            match inner {
                Expression::SignedIntLiteral { value, bits, .. } => if bits == Bits::Any && value > SIGNED_LIMIT {
                    let wrapped = negate_wrapping(value as u64);
                    self.report_pair(&e, Message::NegatedUnsigned, Message::WillOverflowTo(wrapped));
                    e
                } else {
                    self.full_unary_node(e)
                },
                Expression::UnsignedIntLiteral { value, .. } => {
                    let wrapped = negate_wrapping(value);
                    self.report_pair(&e, Message::NegatedUnsigned, Message::WillOverflowTo(wrapped));
                    e
                },
                _ => self.full_unary_node(e),
            }
        } else {
            self.full_unary_node(e)
        }
    }

    fn full_unary_node(&mut self, e: Expression) -> (res: Expression)
        requires
            fold_unary(e).ok,
            old(self).errors + error_count(fold_unary(e).diags) <= usize::MAX,
        ensures
            res == fold_unary(e).val,
            reported(*old(self), *final(self), fold_unary(e).diags),
    {
        proof { lemma_reported_none(*self); }
        let (op_type, inner) = match &e {
            Expression::Unary { op, expr, is_prefix } => {
                if !*is_prefix {
                    return e;
                }
                (op.type_, expr.get_inner())
            },
            _ => {
                return e;
            },
        };
        if op_type == TokenType::Plus {
            match inner {
                Expression::SignedIntLiteral { .. } | Expression::UnsignedIntLiteral { .. }
                | Expression::FloatLiteral { .. } => inner,
                _ => e,
            }
        } else if op_type == TokenType::Tilde {
            match inner {
                Expression::SignedIntLiteral { value, tok, bits } => Expression::SignedIntLiteral {
                    value: exec_signed_not(value, bits),
                    tok,
                    bits,
                },
                Expression::UnsignedIntLiteral { value, tok, bits } => if bits == Bits::Bsz {
                    e
                } else {
                    Expression::UnsignedIntLiteral { value: exec_unsigned_not(value, bits), tok, bits }
                },
                _ => e,
            }
        } else if op_type == TokenType::Minus {
            match inner {
                Expression::SignedIntLiteral { value, tok, bits } => if bits == Bits::Any && value
                    > SIGNED_LIMIT {
                    self.report_pair(&e, Message::NegatedUnsigned, Message::WillOverflow);
                    e
                } else {
                    Expression::SignedIntLiteral { value: -value, tok, bits }
                },
                Expression::UnsignedIntLiteral { .. } => {
                    self.report_pair(&e, Message::NegatedUnsigned, Message::WillOverflow);
                    e
                },
                Expression::FloatLiteral { value, tok, bits } => Expression::FloatLiteral {
                    value: value ^ F64_SIGN_BIT,
                    tok,
                    bits,
                },
                _ => e,
            }
        } else if op_type == TokenType::Bang {
            match inner {
                Expression::SignedIntLiteral { value, tok, .. } => Expression::UnsignedIntLiteral {
                    value: if value == 0 { 1 } else { 0 },
                    tok,
                    bits: Bits::B8,
                },
                Expression::UnsignedIntLiteral { value, tok, .. } => Expression::UnsignedIntLiteral {
                    value: if value == 0 { 1 } else { 0 },
                    tok,
                    bits: Bits::B8,
                },
                _ => e,
            }
        } else {
            e
        }
    }

    fn fold_subscript_node(&mut self, e: Expression) -> (res: Expression)
        requires
            fold_subscript(e).ok,
            old(self).errors + error_count(fold_subscript(e).diags) <= usize::MAX,
        ensures
            res == fold_subscript(e).val,
            reported(*old(self), *final(self), fold_subscript(e).diags),
    {
        proof { lemma_reported_none(*self); }
        let picked = match &e {
            Expression::Subscript { subscripted, args, .. } => {
                let arg = match single(args) {
                    Some(arg) => arg,
                    None => {
                        return e;
                    },
                };
                let items = match subscripted.inner_ref() {
                    Expression::Slice { items, .. } => items,
                    Expression::ArrayLiteral { items, .. } => items,
                    _ => {
                        return e;
                    },
                };
                let index: usize = match arg.inner_ref() {
                    Expression::SignedIntLiteral { value, .. } => {
                        if *value < 0 {
                            proof { lemma_error_count_push(Seq::empty(), error_at(*arg, Message::NegativeIndex)); }
                            self.report(error_diag(arg, Message::NegativeIndex));
                            return e;
                        }
                        *value as usize
                    },
                    Expression::UnsignedIntLiteral { value, .. } => *value as usize,
                    _ => {
                        return e;
                    },
                };
                let len = items.len();
                if index > len {
                    let length = Message::IndexOutOfBounds { index, length: len };
                    proof {
                        lemma_error_count_push(Seq::empty(), error_at(*arg, length));
                        lemma_error_count_push(seq![error_at(*arg, length)], note_at(**subscripted, Message::CollectionLength(len)));
                        assert(seq![error_at(*arg, length)].push(note_at(**subscripted, Message::CollectionLength(len)))
                            =~= seq![error_at(*arg, length), note_at(**subscripted, Message::CollectionLength(len))]);
                        assert(Seq::<Diagnostic>::empty().push(error_at(*arg, length)) =~= seq![error_at(*arg, length)]);
                    }
                    let ghost s0 = *self;
                    self.report(error_diag(arg, length));
                    let ghost s1 = *self;
                    self.report(note_diag(subscripted, Message::CollectionLength(len)));
                    proof {
                        lemma_reported_chain(s0, s1, *self, seq![error_at(*arg, length)],
                            seq![note_at(**subscripted, Message::CollectionLength(len))]);
                        assert(seq![error_at(*arg, length)] + seq![note_at(**subscripted, Message::CollectionLength(len))]
                            =~= seq![error_at(*arg, length), note_at(**subscripted, Message::CollectionLength(len))]);
                    }
                    return e;
                }
                items.get(index).deep_clone()
            },
            _ => {
                return e;
            },
        };
        picked
    }
}

fn literal_truth_of(cond: &Expression) -> (res: Option<bool>)
    ensures
        res == literal_truth(*cond),
{
    match cond.inner_ref() {
        Expression::SignedIntLiteral { value, .. } => Some(*value != 0),
        Expression::UnsignedIntLiteral { value, .. } => Some(*value != 0),
        _ => None,
    }
}

impl ConstantFolder {
    /// Reports a note at `source` when errors were counted since the count was `before`.
    fn note_if_errors(&mut self, before: usize, source: &AstPos, message: Message)
        ensures
            old(self).errors != before ==> reported(*old(self), *final(self), seq![note_at_pos(*source, message)]),
            old(self).errors == before ==> reported(*old(self), *final(self), Seq::empty()),
    {
        if self.errors != before {
            self.report(Diagnostic { kind: DiagnosticKind::Note, site: Site::Pos(source.clone()), message });
        } else {
            proof { lemma_reported_none(*self); }
        }
    }

    fn fold_expr(&mut self, basic: bool, e: Expression) -> (res: Expression)
        requires
            can_fold(*old(self), fold_e(basic, e)),
        ensures
            res == fold_e(basic, e).val,
            reported(*old(self), *final(self), fold_e(basic, e).diags),
        decreases e,
    {
        let ghost s0 = *self;
        match e {
            Expression::Grouping(inner) => {
                let i = self.fold_expr(basic, *inner);
                Expression::Grouping(Box::new(i))
            },
            Expression::Get(inner, name) => {
                let i = self.fold_expr(basic, *inner);
                Expression::Get(Box::new(i), name)
            },
            Expression::StaticGet(inner, name, gets_macro) => match inner {
                Some(o) => {
                    let i = self.fold_expr(basic, *o);
                    Expression::StaticGet(Some(Box::new(i)), name, gets_macro)
                },
                None => {
                    proof { lemma_reported_none(*self); }
                    Expression::StaticGet(None, name, gets_macro)
                },
            },
            Expression::Assign { target, op, value } => {
                let ghost a = fold_e(basic, *target).diags;
                let ghost b = fold_e(basic, *value).diags;
                proof { lemma_split2(a, b); }
                let l = self.fold_expr(basic, *target);
                let ghost s1 = *self;
                let r = self.fold_expr(basic, *value);
                proof { lemma_reported_chain(s0, s1, *self, a, b); }
                Expression::Assign { target: Box::new(l), op, value: Box::new(r) }
            },
            Expression::Array { opening_brace, item, size } => {
                let ghost a = fold_e(basic, *item).diags;
                let ghost b = fold_e(basic, *size).diags;
                proof { lemma_split2(a, b); }
                let l = self.fold_expr(basic, *item);
                let ghost s1 = *self;
                let r = self.fold_expr(basic, *size);
                proof { lemma_reported_chain(s0, s1, *self, a, b); }
                Expression::Array { opening_brace, item: Box::new(l), size: Box::new(r) }
            },
            Expression::Slice { opening_brace, items } => {
                let i = self.fold_expr_list(basic, items);
                Expression::Slice { opening_brace, items: i }
            },
            Expression::ArrayLiteral { opening_brace, items } => {
                let i = self.fold_expr_list(basic, items);
                Expression::ArrayLiteral { opening_brace, items: i }
            },
            Expression::Call(callee, paren, args, unpack) => {
                let ghost a = fold_e(basic, *callee).diags;
                let ghost b = fold_es(basic, args).diags;
                proof { lemma_split2(a, b); }
                let c = self.fold_expr(basic, *callee);
                let ghost s1 = *self;
                let r = self.fold_expr_list(basic, args);
                proof { lemma_reported_chain(s0, s1, *self, a, b); }
                Expression::Call(Box::new(c), paren, r, unpack)
            },
            Expression::CompoundLiteral { type_, closing_brace, fields } => {
                let ghost a = fold_e(basic, *type_).diags;
                let ghost b = fold_fields(basic, fields).diags;
                proof { lemma_split2(a, b); }
                let t = self.fold_expr(basic, *type_);
                let ghost s1 = *self;
                let f = self.fold_field_list(basic, fields);
                proof { lemma_reported_chain(s0, s1, *self, a, b); }
                Expression::CompoundLiteral { type_: Box::new(t), closing_brace, fields: f }
            },
            Expression::FnPtr { kw, return_type, params } => {
                let ghost a = fold_e(basic, *return_type).diags;
                let ghost b = fold_params(basic, params).diags;
                proof { lemma_split2(a, b); }
                let r = self.fold_expr(basic, *return_type);
                let ghost s1 = *self;
                let p = self.fold_param_list(basic, params);
                proof { lemma_reported_chain(s0, s1, *self, a, b); }
                Expression::FnPtr { kw, return_type: Box::new(r), params: p }
            },
            Expression::InMacro { inner, source } => {
                let ghost a = fold_e(basic, *inner).diags;
                proof { lemma_split2(a, macro_note(source, a)); }
                let before = self.errors;
                let i = self.fold_expr(basic, *inner);
                let ghost s1 = *self;
                self.note_if_errors(before, &source, Message::FromMacroExpansion);
                proof {
                    lemma_reported_chain(s0, s1, *self, a, macro_note(source, a));
                }
                Expression::InMacro { inner: Box::new(i), source }
            },
            Expression::MacroExpandedStatements { inner, source } => {
                let ghost a = fold_ss(basic, inner).diags;
                proof { lemma_split2(a, macro_note(source, a)); }
                let before = self.errors;
                let i = self.fold_stmt_list(basic, inner);
                let ghost s1 = *self;
                self.note_if_errors(before, &source, Message::FromMacroExpansion);
                proof {
                    lemma_reported_chain(s0, s1, *self, a, macro_note(source, a));
                }
                Expression::MacroExpandedStatements { inner: i, source }
            },
            Expression::Ternary { tok, condition, then_expr, else_expr } => {
                let ghost a = fold_e(basic, *condition).diags;
                let ghost b = fold_e(basic, *then_expr).diags;
                let ghost c = fold_e(basic, *else_expr).diags;
                proof { lemma_split3(a, b, c); }
                let cv = self.fold_expr(basic, *condition);
                let ghost s1 = *self;
                let t = self.fold_expr(basic, *then_expr);
                let ghost s2 = *self;
                let f = self.fold_expr(basic, *else_expr);
                proof { lemma_reported_chain3(s0, s1, s2, *self, a, b, c); }
                match literal_truth_of(&cv) {
                    Some(true) => t,
                    Some(false) => f,
                    None => Expression::Ternary {
                        tok,
                        condition: Box::new(cv),
                        then_expr: Box::new(t),
                        else_expr: Box::new(f),
                    },
                }
            },
            Expression::Unary { op, expr, is_prefix } => {
                let ghost a = fold_e(basic, *expr).diags;
                let ghost node = Expression::Unary { op, expr: Box::new(fold_e(basic, *expr).val), is_prefix };
                proof { lemma_split2(a, fold_unary_in(basic, node).diags); }
                let i = self.fold_expr(basic, *expr);
                let ghost s1 = *self;
                let u = self.fold_unary_node(basic, Expression::Unary { op, expr: Box::new(i), is_prefix });
                proof { lemma_reported_chain(s0, s1, *self, a, fold_unary_in(basic, node).diags); }
                u
            },
            Expression::Subscript { subscripted, paren, args } => {
                let ghost a = fold_e(basic, *subscripted).diags;
                let ghost b = fold_es(basic, args).diags;
                let ghost node = Expression::Subscript {
                    subscripted: Box::new(fold_e(basic, *subscripted).val),
                    paren,
                    args: fold_es(basic, args).val,
                };
                let ghost c = fold_subscript(node).diags;
                proof { lemma_split3(a, b, c); }
                let sv = self.fold_expr(basic, *subscripted);
                let ghost s1 = *self;
                let av = self.fold_expr_list(basic, args);
                let ghost s2 = *self;
                let u = self.fold_subscript_node(Expression::Subscript { subscripted: Box::new(sv), paren, args: av });
                proof { lemma_reported_chain3(s0, s1, s2, *self, a, b, c); }
                u
            },
            Expression::Binary { left, op, right } => {
                let ghost a = fold_e(basic, *left).diags;
                let ghost b = fold_e(basic, *right).diags;
                let ghost node = Expression::Binary {
                    left: Box::new(fold_e(basic, *left).val),
                    op,
                    right: Box::new(fold_e(basic, *right).val),
                };
                let ghost c = fold_binary_in(basic, node).diags;
                proof { lemma_split3(a, b, c); }
                let l = self.fold_expr(basic, *left);
                let ghost s1 = *self;
                let r = self.fold_expr(basic, *right);
                let ghost s2 = *self;
                let u = self.fold_binary_node(basic, Expression::Binary { left: Box::new(l), op, right: Box::new(r) });
                proof { lemma_reported_chain3(s0, s1, s2, *self, a, b, c); }
                u
            },
            _ => {
                proof { lemma_reported_none(*self); }
                e
            },
        }
    }

    fn fold_expr_list(&mut self, basic: bool, l: List<Expression>) -> (res: List<Expression>)
        requires
            can_fold(*old(self), fold_es(basic, l)),
        ensures
            res == fold_es(basic, l).val,
            reported(*old(self), *final(self), fold_es(basic, l).diags),
        decreases l,
    {
        match l {
            List::Nil => {
                proof { lemma_reported_none(*self); }
                List::Nil
            },
            List::Cons(h, t) => {
                let ghost s0 = *self;
                let ghost a = fold_e(basic, *h).diags;
                let ghost b = fold_es(basic, *t).diags;
                proof { lemma_split2(a, b); }
                let x = self.fold_expr(basic, *h);
                let ghost s1 = *self;
                let y = self.fold_expr_list(basic, *t);
                proof { lemma_reported_chain(s0, s1, *self, a, b); }
                List::Cons(Box::new(x), Box::new(y))
            },
        }
    }

    fn fold_opt_expr(&mut self, basic: bool, o: Option<Expression>) -> (res: Option<Expression>)
        requires
            can_fold(*old(self), fold_opt_e(basic, o)),
        ensures
            res == fold_opt_e(basic, o).val,
            reported(*old(self), *final(self), fold_opt_e(basic, o).diags),
        decreases o,
    {
        match o {
            Some(e) => Some(self.fold_expr(basic, e)),
            None => {
                proof { lemma_reported_none(*self); }
                None
            },
        }
    }

    fn fold_field_list(&mut self, basic: bool, l: List<StructField>) -> (res: List<StructField>)
        requires
            can_fold(*old(self), fold_fields(basic, l)),
        ensures
            res == fold_fields(basic, l).val,
            reported(*old(self), *final(self), fold_fields(basic, l).diags),
        decreases l,
    {
        match l {
            List::Nil => {
                proof { lemma_reported_none(*self); }
                List::Nil
            },
            List::Cons(h, t) => {
                let ghost s0 = *self;
                let ghost a = fold_e(basic, h.expr).diags;
                let ghost b = fold_fields(basic, *t).diags;
                proof { lemma_split2(a, b); }
                let StructField { name, expr, bits, is_const } = *h;
                let x = self.fold_expr(basic, expr);
                let ghost s1 = *self;
                let y = self.fold_field_list(basic, *t);
                proof { lemma_reported_chain(s0, s1, *self, a, b); }
                List::Cons(Box::new(StructField { name, expr: x, bits, is_const }), Box::new(y))
            },
        }
    }

    fn fold_param_list(&mut self, basic: bool, l: List<FunctionParam>) -> (res: List<FunctionParam>)
        requires
            can_fold(*old(self), fold_params(basic, l)),
        ensures
            res == fold_params(basic, l).val,
            reported(*old(self), *final(self), fold_params(basic, l).diags),
        decreases l,
    {
        match l {
            List::Nil => {
                proof { lemma_reported_none(*self); }
                List::Nil
            },
            List::Cons(h, t) => {
                let ghost s0 = *self;
                let ghost a = fold_e(basic, h.type_).diags;
                let ghost b = fold_params(basic, *t).diags;
                proof { lemma_split2(a, b); }
                let FunctionParam { name, type_, is_const } = *h;
                let x = self.fold_expr(basic, type_);
                let ghost s1 = *self;
                let y = self.fold_param_list(basic, *t);
                proof { lemma_reported_chain(s0, s1, *self, a, b); }
                List::Cons(Box::new(FunctionParam { name, type_: x, is_const }), Box::new(y))
            },
        }
    }

    fn fold_variant_list(&mut self, basic: bool, l: List<EnumVariant>) -> (res: List<EnumVariant>)
        requires
            can_fold(*old(self), fold_variants(basic, l)),
        ensures
            res == fold_variants(basic, l).val,
            reported(*old(self), *final(self), fold_variants(basic, l).diags),
        decreases l,
    {
        match l {
            List::Nil => {
                proof { lemma_reported_none(*self); }
                List::Nil
            },
            List::Cons(h, t) => {
                let ghost s0 = *self;
                let ghost a = fold_e(basic, h.type_).diags;
                let ghost b = fold_variants(basic, *t).diags;
                proof { lemma_split2(a, b); }
                let EnumVariant { name, type_, default } = *h;
                let x = self.fold_expr(basic, type_);
                let ghost s1 = *self;
                let y = self.fold_variant_list(basic, *t);
                proof { lemma_reported_chain(s0, s1, *self, a, b); }
                List::Cons(Box::new(EnumVariant { name, type_: x, default }), Box::new(y))
            },
        }
    }

    fn fold_generic(&mut self, basic: bool, g: Generic) -> (res: Generic)
        requires
            fold_opt_e(basic, g.bounds).ok,
            fold_opt_e(basic, g.default).ok,
            old(self).errors + error_count(fold_opt_e(basic, g.bounds).diags + fold_opt_e(basic, g.default).diags) <= usize::MAX,
        ensures
            res == (Generic { name: g.name, bounds: fold_opt_e(basic, g.bounds).val, default: fold_opt_e(basic, g.default).val }),
            reported(*old(self), *final(self), fold_opt_e(basic, g.bounds).diags + fold_opt_e(basic, g.default).diags),
        decreases g,
    {
        let ghost s0 = *self;
        let ghost a = fold_opt_e(basic, g.bounds).diags;
        let ghost d = fold_opt_e(basic, g.default).diags;
        proof { lemma_split2(a, d); }
        let Generic { name, bounds, default } = g;
        let x = self.fold_opt_expr(basic, bounds);
        let ghost s1 = *self;
        let z = self.fold_opt_expr(basic, default);
        proof { lemma_reported_chain(s0, s1, *self, a, d); }
        Generic { name, bounds: x, default: z }
    }

    fn fold_generic_list(&mut self, basic: bool, l: List<Generic>) -> (res: List<Generic>)
        requires
            can_fold(*old(self), fold_generics(basic, l)),
        ensures
            res == fold_generics(basic, l).val,
            reported(*old(self), *final(self), fold_generics(basic, l).diags),
        decreases l,
    {
        match l {
            List::Nil => {
                proof { lemma_reported_none(*self); }
                List::Nil
            },
            List::Cons(h, t) => {
                let ghost s0 = *self;
                let ghost a = fold_opt_e(basic, h.bounds).diags + fold_opt_e(basic, h.default).diags;
                let ghost b = fold_generics(basic, *t).diags;
                proof {
                    lemma_split2(a, b);
                    assert(fold_generics(basic, List::Cons(h, t)).diags == a + b);
                }
                let x = self.fold_generic(basic, *h);
                let ghost s1 = *self;
                let y = self.fold_generic_list(basic, *t);
                proof { lemma_reported_chain(s0, s1, *self, a, b); }
                List::Cons(Box::new(x), Box::new(y))
            },
        }
    }

    fn fold_opt_expr_list(&mut self, basic: bool, o: Option<List<Expression>>) -> (res: Option<List<Expression>>)
        requires
            can_fold(*old(self), fold_opt_es(basic, o)),
        ensures
            res == fold_opt_es(basic, o).val,
            reported(*old(self), *final(self), fold_opt_es(basic, o).diags),
        decreases o,
    {
        match o {
            Some(l) => Some(self.fold_expr_list(basic, l)),
            None => {
                proof { lemma_reported_none(*self); }
                None
            },
        }
    }

    fn fold_opt_stmt_list(&mut self, basic: bool, o: Option<List<Statement>>) -> (res: Option<List<Statement>>)
        requires
            can_fold(*old(self), fold_opt_ss(basic, o)),
        ensures
            res == fold_opt_ss(basic, o).val,
            reported(*old(self), *final(self), fold_opt_ss(basic, o).diags),
        decreases o,
    {
        match o {
            Some(l) => Some(self.fold_stmt_list(basic, l)),
            None => {
                proof { lemma_reported_none(*self); }
                None
            },
        }
    }

    fn fold_case_list(&mut self, basic: bool, l: List<SwitchCase>) -> (res: List<SwitchCase>)
        requires
            can_fold(*old(self), fold_cases(basic, l)),
        ensures
            res == fold_cases(basic, l).val,
            reported(*old(self), *final(self), fold_cases(basic, l).diags),
        decreases l,
    {
        match l {
            List::Nil => {
                proof { lemma_reported_none(*self); }
                List::Nil
            },
            List::Cons(h, t) => {
                let ghost s0 = *self;
                let ghost a = fold_opt_es(basic, h.cases).diags;
                let ghost c = fold_ss(basic, h.code).diags;
                let ghost b = fold_cases(basic, *t).diags;
                proof { lemma_split3(a, c, b); }
                let SwitchCase { cases, code } = *h;
                let x = self.fold_opt_expr_list(basic, cases);
                let ghost s1 = *self;
                let z = self.fold_stmt_list(basic, code);
                let ghost s2 = *self;
                let y = self.fold_case_list(basic, *t);
                proof { lemma_reported_chain3(s0, s1, s2, *self, a, c, b); }
                List::Cons(Box::new(SwitchCase { cases: x, code: z }), Box::new(y))
            },
        }
    }

    fn fold_stmt_list(&mut self, basic: bool, l: List<Statement>) -> (res: List<Statement>)
        requires
            can_fold(*old(self), fold_ss(basic, l)),
        ensures
            res == fold_ss(basic, l).val,
            reported(*old(self), *final(self), fold_ss(basic, l).diags),
        decreases l,
    {
        match l {
            List::Nil => {
                proof { lemma_reported_none(*self); }
                List::Nil
            },
            List::Cons(h, t) => {
                let ghost s0 = *self;
                let ghost a = fold_s(basic, *h).diags;
                let ghost b = fold_ss(basic, *t).diags;
                proof { lemma_split2(a, b); }
                let x = self.fold_stmt(basic, *h);
                let ghost s1 = *self;
                let y = self.fold_stmt_list(basic, *t);
                proof { lemma_reported_chain(s0, s1, *self, a, b); }
                List::Cons(Box::new(x), Box::new(y))
            },
        }
    }

    fn fold_opt_box_stmt(&mut self, basic: bool, o: Option<Box<Statement>>) -> (res: Option<Box<Statement>>)
        requires
            can_fold(*old(self), fold_box_s(basic, o)),
        ensures
            res == fold_box_s(basic, o).val,
            reported(*old(self), *final(self), fold_box_s(basic, o).diags),
        decreases o,
    {
        match o {
            Some(s) => Some(Box::new(self.fold_stmt(basic, *s))),
            None => {
                proof { lemma_reported_none(*self); }
                None
            },
        }
    }

    fn fold_stmt(&mut self, basic: bool, s: Statement) -> (res: Statement)
        requires
            can_fold(*old(self), fold_s(basic, s)),
        ensures
            res == fold_s(basic, s).val,
            reported(*old(self), *final(self), fold_s(basic, s).diags),
        decreases s,
    {
        let ghost s0 = *self;
        match s {
            Statement::Expression(e) => Statement::Expression(self.fold_expr(basic, e)),
            Statement::Use { use_expr, as_name, typedef, bind } => Statement::Use {
                use_expr: self.fold_expr(basic, use_expr),
                as_name,
                typedef,
                bind,
            },
            Statement::Defer { kw, statement } => Statement::Defer {
                kw,
                statement: Box::new(self.fold_stmt(basic, *statement)),
            },
            Statement::While { kw, condition, body } => {
                let ghost a = fold_e(basic, condition).diags;
                let ghost b = fold_s(basic, *body).diags;
                proof { lemma_split2(a, b); }
                let c = self.fold_expr(basic, condition);
                let ghost s1 = *self;
                let bd = self.fold_stmt(basic, *body);
                proof { lemma_reported_chain(s0, s1, *self, a, b); }
                Statement::While { kw, condition: c, body: Box::new(bd) }
            },
            Statement::DoWhile { kw, condition, body } => {
                let ghost a = fold_e(basic, condition).diags;
                let ghost b = fold_s(basic, *body).diags;
                proof { lemma_split2(a, b); }
                let c = self.fold_expr(basic, condition);
                let ghost s1 = *self;
                let bd = self.fold_stmt(basic, *body);
                proof { lemma_reported_chain(s0, s1, *self, a, b); }
                Statement::DoWhile { kw, condition: c, body: Box::new(bd) }
            },
            Statement::Foreach { kw, variable_name, iterator, body } => {
                let ghost a = fold_e(basic, iterator).diags;
                let ghost b = fold_s(basic, *body).diags;
                proof { lemma_split2(a, b); }
                let c = self.fold_expr(basic, iterator);
                let ghost s1 = *self;
                let bd = self.fold_stmt(basic, *body);
                proof { lemma_reported_chain(s0, s1, *self, a, b); }
                Statement::Foreach { kw, variable_name, iterator: c, body: Box::new(bd) }
            },
            Statement::Block(kw, body) => Statement::Block(kw, self.fold_stmt_list(basic, body)),
            Statement::Namespace { name, body } => Statement::Namespace { name, body: self.fold_stmt_list(basic, body) },
            Statement::ImportedBlock { statements, source } => if basic {
                proof { lemma_reported_none(*self); }
                Statement::ImportedBlock { statements, source }
            } else {
                let ghost a = fold_ss(basic, statements).diags;
                proof { lemma_split2(a, import_note(source, a)); }
                let before = self.errors;
                let b = self.fold_stmt_list(basic, statements);
                let ghost s1 = *self;
                self.note_if_errors(before, &source, Message::FromImport);
                proof { lemma_reported_chain(s0, s1, *self, a, import_note(source, a)); }
                Statement::ImportedBlock { statements: b, source }
            },
            Statement::Struct { name, fields, has_body, binding, generics_names, bind_typedefed } => {
                Statement::Struct {
                    name,
                    fields: self.fold_field_list(basic, fields),
                    has_body,
                    binding,
                    generics_names,
                    bind_typedefed,
                }
            },
            Statement::Union { name, fields, has_body, binding, bind_typedefed } => Statement::Union {
                name,
                fields: self.fold_field_list(basic, fields),
                has_body,
                binding,
                bind_typedefed,
            },
            Statement::Return { kw, value } => Statement::Return { kw, value: self.fold_opt_expr(basic, value) },
            Statement::Impl { object, declarations } => {
                let ghost a = fold_e(basic, object).diags;
                let ghost b = fold_ss(basic, declarations).diags;
                proof { lemma_split2(a, b); }
                let o = self.fold_expr(basic, object);
                let ghost s1 = *self;
                let d = self.fold_stmt_list(basic, declarations);
                proof { lemma_reported_chain(s0, s1, *self, a, b); }
                Statement::Impl { object: o, declarations: d }
            },
            Statement::Enum {
                name,
                kind_type,
                variants,
                is_simple,
                has_body,
                binding,
                generics_names,
                bind_typedefed,
            } => {
                let ghost a = fold_e(basic, kind_type).diags;
                let ghost b = fold_variants(basic, variants).diags;
                proof { lemma_split2(a, b); }
                let k = self.fold_expr(basic, kind_type);
                let ghost s1 = *self;
                let v = self.fold_variant_list(basic, variants);
                proof { lemma_reported_chain(s0, s1, *self, a, b); }
                Statement::Enum {
                    name,
                    kind_type: k,
                    variants: v,
                    is_simple,
                    has_body,
                    binding,
                    generics_names,
                    bind_typedefed,
                }
            },
            Statement::VarDecl { name, initializer, type_, is_const, qualifiers } => {
                let ghost a = fold_opt_e(basic, initializer).diags;
                let ghost b = fold_opt_e(basic, type_).diags;
                proof { lemma_split2(a, b); }
                let i = self.fold_opt_expr(basic, initializer);
                let ghost s1 = *self;
                let t = self.fold_opt_expr(basic, type_);
                proof { lemma_reported_chain(s0, s1, *self, a, b); }
                Statement::VarDecl { name, initializer: i, type_: t, is_const, qualifiers }
            },
            Statement::Macro { name, params, body } => {
                let b = match body {
                    MacroBody::Binding(e) => MacroBody::Binding(self.fold_expr(basic, e)),
                    MacroBody::Expression(e) => MacroBody::Expression(self.fold_expr(basic, e)),
                    MacroBody::Block(stmts) => MacroBody::Block(self.fold_stmt_list(basic, stmts)),
                };
                Statement::Macro { name, params, body: b }
            },
            Statement::Template { name, declaration, generics, generics_names } => {
                let ghost a = fold_s(basic, *declaration).diags;
                let ghost b = fold_generics(basic, generics).diags;
                proof { lemma_split2(a, b); }
                let d = self.fold_stmt(basic, *declaration);
                let ghost s1 = *self;
                let g = self.fold_generic_list(basic, generics);
                proof { lemma_reported_chain(s0, s1, *self, a, b); }
                Statement::Template { name, declaration: Box::new(d), generics: g, generics_names }
            },
            Statement::For { kw, initializer, condition, increments, body } => {
                let ghost a = fold_e(basic, condition).diags;
                let ghost b = fold_s(basic, *body).diags;
                let ghost c = fold_box_s(basic, initializer).diags;
                let ghost d = fold_es(basic, increments).diags;
                proof { lemma_split4(a, b, c, d); }
                let cv = self.fold_expr(basic, condition);
                let ghost s1 = *self;
                let bd = self.fold_stmt(basic, *body);
                let ghost s2 = *self;
                let i = self.fold_opt_box_stmt(basic, initializer);
                let ghost s3 = *self;
                let n = self.fold_expr_list(basic, increments);
                proof {
                    lemma_reported_chain3(s0, s1, s2, s3, a, b, c);
                    lemma_reported_chain(s0, s3, *self, a + b + c, d);
                }
                Statement::For { kw, initializer: i, condition: cv, increments: n, body: Box::new(bd) }
            },
            Statement::Function { name, params, return_type, body, qualifiers, generics_names, bind, init } => {
                let ghost a = fold_e(basic, return_type).diags;
                let ghost b = fold_params(basic, params).diags;
                let ghost c = fold_opt_ss(basic, body).diags;
                proof { lemma_split3(a, b, c); }
                let r = self.fold_expr(basic, return_type);
                let ghost s1 = *self;
                let p = self.fold_param_list(basic, params);
                let ghost s2 = *self;
                let bd = self.fold_opt_stmt_list(basic, body);
                proof { lemma_reported_chain3(s0, s1, s2, *self, a, b, c); }
                Statement::Function {
                    name,
                    params: p,
                    return_type: r,
                    body: bd,
                    qualifiers,
                    generics_names,
                    bind,
                    init,
                }
            },
            Statement::Interface { name, declarations, types } => {
                let ghost a = fold_opt_ss(basic, declarations).diags;
                let ghost b = fold_opt_es(basic, types).diags;
                proof { lemma_split2(a, b); }
                let d = self.fold_opt_stmt_list(basic, declarations);
                let ghost s1 = *self;
                let t = self.fold_opt_expr_list(basic, types);
                proof { lemma_reported_chain(s0, s1, *self, a, b); }
                Statement::Interface { name, declarations: d, types: t }
            },
            Statement::If { kw, condition, then_branch, else_branch } => if basic {
                proof { lemma_reported_none(*self); }
                Statement::If { kw, condition, then_branch, else_branch }
            } else {
                let ghost a = fold_e(basic, condition).diags;
                let ghost b = fold_s(basic, *then_branch).diags;
                let ghost c = fold_box_s(basic, else_branch).diags;
                proof { lemma_split3(a, b, c); }
                let cv = self.fold_expr(basic, condition);
                let ghost s1 = *self;
                let t = self.fold_stmt(basic, *then_branch);
                let ghost s2 = *self;
                let f = self.fold_opt_box_stmt(basic, else_branch);
                proof { lemma_reported_chain3(s0, s1, s2, *self, a, b, c); }
                match literal_truth_of(&cv) {
                    Some(true) => t,
                    Some(false) => match f {
                        Some(b) => *b,
                        None => Statement::Empty,
                    },
                    None => Statement::If { kw, condition: cv, then_branch: Box::new(t), else_branch: f },
                }
            },
            Statement::Switch { kw, expr, cases } => if basic {
                proof { lemma_reported_none(*self); }
                Statement::Switch { kw, expr, cases }
            } else {
                let ghost a = fold_e(basic, expr).diags;
                let ghost b = fold_cases(basic, cases).diags;
                proof { lemma_split2(a, b); }
                let ev = self.fold_expr(basic, expr);
                let ghost s1 = *self;
                let c = self.fold_case_list(basic, cases);
                proof { lemma_reported_chain(s0, s1, *self, a, b); }
                Statement::Switch { kw, expr: ev, cases: c }
            },
            _ => {
                proof { lemma_reported_none(*self); }
                s
            },
        }
    }

    /// Folds each of the statements, first to last: with `basic`, only as the basic folder does
    /// (see `basic_unary`, `fold_binary_in` and `fold_s`).
    pub fn fold_statements(&mut self, basic: bool, statements: &mut Vec<Statement>)
        requires
            forall|i: int| 0 <= i < old(statements)@.len() ==> #[trigger] fold_s(basic, old(statements)@[i]).ok,
            old(self).errors + error_count(fold_all(basic, old(statements)@).diags) <= usize::MAX,
        ensures
            final(statements)@ == fold_all(basic, old(statements)@).val,
            final(statements)@.len() == old(statements)@.len(),
            forall|i: int|
                0 <= i < old(statements)@.len() ==> final(statements)@[i] == #[trigger] fold_s(basic, old(statements)@[i]).val,
            reported(*old(self), *final(self), fold_all(basic, old(statements)@).diags),
    {
        proof { lemma_fold_all_each(basic, statements@); }
        let mut taken: Vec<Statement> = Vec::new();
        std::mem::swap(&mut taken, statements);
        let list = List::from_vec(taken);
        proof { lemma_fold_list(basic, list); }
        let folded = self.fold_stmt_list(basic, list);
        *statements = folded.into_vec();
    }

    /// Folds each of the statements, first to last.
    pub fn fold(&mut self, statements: &mut Vec<Statement>)
        requires
            forall|i: int| 0 <= i < old(statements)@.len() ==> #[trigger] fold_s(false, old(statements)@[i]).ok,
            old(self).errors + error_count(fold_all(false, old(statements)@).diags) <= usize::MAX,
        ensures
            final(statements)@ == fold_all(false, old(statements)@).val,
            final(statements)@.len() == old(statements)@.len(),
            forall|i: int|
                0 <= i < old(statements)@.len() ==> final(statements)@[i] == #[trigger] fold_s(
                    false,
                    old(statements)@[i],
                ).val,
            reported(*old(self), *final(self), fold_all(false, old(statements)@).diags),
    {
        self.fold_statements(false, statements);
    }
}

// ---------------------------------------------------------------------------------------------
// What folding computes.
// ---------------------------------------------------------------------------------------------

/// `a + r` on two unsigned literals of one sized width: where the sum fits the width, the fold
/// is the literal of that width holding the sum, with the left operand's token, and nothing is
/// reported; where it does not fit, an overflow error is reported on the expression.
pub proof fn lemma_fold_unsigned_sum(a: u64, r: u64, b: Bits, ta: Token, op: Token, tr: Token)
    requires
        is_sized(b),
        a <= umax(b),
        r <= umax(b),
        op.type_ == TokenType::Plus,
    ensures
        ({
            let e = Expression::Binary {
                left: Box::new(Expression::UnsignedIntLiteral { value: a, tok: ta, bits: b }),
                op,
                right: Box::new(Expression::UnsignedIntLiteral { value: r, tok: tr, bits: b }),
            };
            let f = fold_e(false, e);
            &&& f.ok
            &&& a + r <= umax(b) ==> f.val == Expression::UnsignedIntLiteral { value: (a + r) as u64, tok: ta, bits: b }
                && f.diags.len() == 0
            &&& a + r > umax(b) ==> f.diags == seq![error_at(e, Message::OverflowingOperation)]
        }),
{
    let e = Expression::Binary {
        left: Box::new(Expression::UnsignedIntLiteral { value: a, tok: ta, bits: b }),
        op,
        right: Box::new(Expression::UnsignedIntLiteral { value: r, tok: tr, bits: b }),
    };
    let la = Expression::UnsignedIntLiteral { value: a, tok: ta, bits: b };
    let ra = Expression::UnsignedIntLiteral { value: r, tok: tr, bits: b };
    assert(fold_e(false, la) == done(la));
    assert(fold_e(false, ra) == done(ra));
    assert(spec_inner(la) == la);
    assert(spec_inner(ra) == ra);
    assert(utrunc(b, a) == a);
    let f = fold_e(false, e);
    let u = fold_binary(e);
    assert(fold_binary_in(false, e) == u);
    assert(f.diags =~= Seq::<Diagnostic>::empty() + Seq::<Diagnostic>::empty() + u.diags);
}

/// `a - r` on two unsigned literals of one sized width, with `r <= a`: the fold is the literal
/// of that width holding the difference, and nothing is reported; with `r > a`, an overflow
/// error is reported.
pub proof fn lemma_fold_unsigned_difference(a: u64, r: u64, b: Bits, ta: Token, op: Token, tr: Token)
    requires
        is_sized(b),
        a <= umax(b),
        r <= umax(b),
        op.type_ == TokenType::Minus,
    ensures
        ({
            let e = Expression::Binary {
                left: Box::new(Expression::UnsignedIntLiteral { value: a, tok: ta, bits: b }),
                op,
                right: Box::new(Expression::UnsignedIntLiteral { value: r, tok: tr, bits: b }),
            };
            let f = fold_e(false, e);
            &&& f.ok
            &&& r <= a ==> f.val == Expression::UnsignedIntLiteral { value: (a - r) as u64, tok: ta, bits: b }
                && f.diags.len() == 0
            &&& r > a ==> f.diags == seq![error_at(e, Message::OverflowingOperation)]
        }),
{
    let e = Expression::Binary {
        left: Box::new(Expression::UnsignedIntLiteral { value: a, tok: ta, bits: b }),
        op,
        right: Box::new(Expression::UnsignedIntLiteral { value: r, tok: tr, bits: b }),
    };
    let la = Expression::UnsignedIntLiteral { value: a, tok: ta, bits: b };
    let ra = Expression::UnsignedIntLiteral { value: r, tok: tr, bits: b };
    assert(fold_e(false, la) == done(la));
    assert(fold_e(false, ra) == done(ra));
    assert(spec_inner(la) == la);
    assert(spec_inner(ra) == ra);
    assert(utrunc(b, a) == a);
    let f = fold_e(false, e);
    let u = fold_binary(e);
    assert(fold_binary_in(false, e) == u);
    assert(f.diags =~= Seq::<Diagnostic>::empty() + Seq::<Diagnostic>::empty() + u.diags);
}

proof fn lemma_not_is_negation_minus_one(v: i128, b: Bits)
    requires
        b != Bits::Bsz,
        smin(b) <= v <= smax(b),
    ensures
        signed_not(v, b) == -v - 1,
{
    match b {
        Bits::B8 => {
            assert((!(v as i8)) as i128 == -v - 1) by (bit_vector)
                requires
                    -128 <= v <= 127,
            ;
        },
        Bits::B16 => {
            assert((!(v as i16)) as i128 == -v - 1) by (bit_vector)
                requires
                    -32768 <= v <= 32767,
            ;
        },
        Bits::B32 => {
            assert((!(v as i32)) as i128 == -v - 1) by (bit_vector)
                requires
                    -2147483648 <= v <= 2147483647,
            ;
        },
        _ => {
            assert((!(v as i64)) as i128 == -v - 1) by (bit_vector)
                requires
                    -9223372036854775808 <= v <= 9223372036854775807,
            ;
        },
    }
}

/// `~v` on a signed literal whose value fits its width (64 bits for an untyped literal) folds
/// to the literal `-v - 1` of the same width, with nothing reported; the basic folder gives
/// `-v - 1` for every signed literal.
pub proof fn lemma_fold_signed_complement(v: i128, b: Bits, tok: Token, op: Token)
    requires
        op.type_ == TokenType::Tilde,
    ensures
        ({
            let e = Expression::Unary {
                op,
                expr: Box::new(Expression::SignedIntLiteral { value: v, tok, bits: b }),
                is_prefix: true,
            };
            &&& b != Bits::Bsz && smin(b) <= v <= smax(b) ==> fold_e(false, e) == Folded {
                val: Expression::SignedIntLiteral { value: (-v - 1) as i128, tok, bits: b },
                diags: Seq::<Diagnostic>::empty(),
                ok: true,
            }
            &&& v > i128::MIN ==> fold_e(true, e) == Folded {
                val: Expression::SignedIntLiteral { value: (-v - 1) as i128, tok, bits: b },
                diags: Seq::<Diagnostic>::empty(),
                ok: true,
            }
        }),
{
    let e = Expression::Unary {
        op,
        expr: Box::new(Expression::SignedIntLiteral { value: v, tok, bits: b }),
        is_prefix: true,
    };
    let lit = Expression::SignedIntLiteral { value: v, tok, bits: b };
    assert(fold_e(false, lit) == done(lit));
    assert(fold_e(true, lit) == done(lit));
    assert(spec_inner(lit) == lit);
    if b != Bits::Bsz && smin(b) <= v <= smax(b) {
        lemma_not_is_negation_minus_one(v, b);
        assert(fold_unary(e).val == Expression::SignedIntLiteral { value: (-v - 1) as i128, tok, bits: b });
        assert(fold_e(false, e).diags =~= Seq::<Diagnostic>::empty());
    }
    assert(!v == -v - 1) by (bit_vector);
    assert(basic_unary(e).val == Expression::SignedIntLiteral { value: (-v - 1) as i128, tok, bits: b });
    assert(fold_e(true, e).diags =~= Seq::<Diagnostic>::empty());
}

/// The value of an integer literal.
pub open spec fn literal_int(e: Expression) -> Option<int> {
    match e {
        Expression::SignedIntLiteral { value, .. } => Some(value as int),
        Expression::UnsignedIntLiteral { value, .. } => Some(value as int),
        _ => None,
    }
}

/// Folding a list of integer literals changes nothing and reports nothing.
proof fn lemma_fold_literals(basic: bool, l: List<Expression>)
    requires
        forall|k: int| 0 <= k < l.seq().len() ==> literal_int(#[trigger] l.seq()[k]) is Some,
    ensures
        fold_es(basic, l) == done(l),
    decreases l,
{
    l.lemma_seq_len();
    match l {
        List::Nil => {},
        List::Cons(h, t) => {
            assert(literal_int(l.seq()[0]) is Some);
            assert forall|k: int| 0 <= k < t.seq().len() implies literal_int(#[trigger] t.seq()[k]) is Some by {
                assert(l.seq()[k + 1] == t.seq()[k]);
            }
            lemma_fold_literals(basic, *t);
            assert(*h == l.seq()[0]);
            assert(fold_e(basic, *h) == done(*h)) by {
                match *h {
                    Expression::SignedIntLiteral { .. } => {},
                    Expression::UnsignedIntLiteral { .. } => {},
                    _ => {},
                }
            }
            assert(Seq::<Diagnostic>::empty() + Seq::<Diagnostic>::empty() =~= Seq::<Diagnostic>::empty());
        },
    }
}

/// A literal index into an array literal of integer literals: an index `i` with `0 <= i < n`
/// (`n` the number of items) folds to item `i` with nothing reported; a negative index is
/// reported as such and the subscript stays; an index that is not negative is never reported
/// as negative.
pub proof fn lemma_fold_literal_subscript(
    basic: bool,
    opening_brace: Token,
    items: List<Expression>,
    paren: Token,
    index: Expression,
)
    requires
        forall|k: int| 0 <= k < items.seq().len() ==> literal_int(#[trigger] items.seq()[k]) is Some,
        items.seq().len() <= usize::MAX,
        literal_int(index) is Some,
    ensures
        ({
            let e = Expression::Subscript {
                subscripted: Box::new(Expression::ArrayLiteral { opening_brace, items }),
                paren,
                args: List::Cons(Box::new(index), Box::new(List::Nil)),
            };
            let i = literal_int(index)->0;
            let f = fold_e(basic, e);
            &&& 0 <= i < items.seq().len() ==> f == Folded {
                val: items.seq()[i],
                diags: Seq::<Diagnostic>::empty(),
                ok: true,
            }
            &&& i < 0 ==> f == Folded { val: e, diags: seq![error_at(index, Message::NegativeIndex)], ok: true }
            &&& i >= 0 ==> forall|k: int| 0 <= k < f.diags.len() ==> (#[trigger] f.diags[k]).message
                != Message::NegativeIndex
        }),
{
    let args = List::Cons(Box::new(index), Box::new(List::<Expression>::Nil));
    let sub = Expression::ArrayLiteral { opening_brace, items };
    let e = Expression::Subscript { subscripted: Box::new(sub), paren, args };
    lemma_fold_literals(basic, items);
    args.lemma_seq_len();
    assert(args.seq()[0] == index);
    assert(literal_int(args.seq()[0]) is Some);
    assert forall|k: int| 0 <= k < args.seq().len() implies literal_int(#[trigger] args.seq()[k]) is Some by {
        assert(k == 0);
    }
    lemma_fold_literals(basic, args);
    assert(fold_e(basic, sub) == done(sub));
    let u = fold_subscript(e);
    let f = fold_e(basic, e);
    assert(f.diags =~= Seq::<Diagnostic>::empty() + Seq::<Diagnostic>::empty() + u.diags);
    assert(spec_inner(index) == index);
}

/// `a + r` and `a - r` on two signed literals of one sized width: where the result fits the
/// width, the fold is the literal of that width holding it, with nothing reported; where it
/// does not, an overflow error is reported on the expression.
pub proof fn lemma_fold_signed_arithmetic(a: i128, r: i128, b: Bits, ta: Token, op: Token, tr: Token)
    requires
        is_sized(b),
        smin(b) <= a <= smax(b),
        smin(b) <= r <= smax(b),
        op.type_ == TokenType::Plus || op.type_ == TokenType::Minus,
    ensures
        ({
            let e = Expression::Binary {
                left: Box::new(Expression::SignedIntLiteral { value: a, tok: ta, bits: b }),
                op,
                right: Box::new(Expression::SignedIntLiteral { value: r, tok: tr, bits: b }),
            };
            let x = if op.type_ == TokenType::Minus { a - r } else { a + r };
            let f = fold_e(false, e);
            &&& f.ok
            &&& smin(b) <= x <= smax(b) ==> f.val == Expression::SignedIntLiteral { value: x as i128, tok: ta, bits: b }
                && f.diags.len() == 0
            &&& !(smin(b) <= x <= smax(b)) ==> f.diags == seq![error_at(e, Message::OverflowingOperation)]
        }),
{
    let e = Expression::Binary {
        left: Box::new(Expression::SignedIntLiteral { value: a, tok: ta, bits: b }),
        op,
        right: Box::new(Expression::SignedIntLiteral { value: r, tok: tr, bits: b }),
    };
    let la = Expression::SignedIntLiteral { value: a, tok: ta, bits: b };
    let ra = Expression::SignedIntLiteral { value: r, tok: tr, bits: b };
    assert(fold_e(false, la) == done(la));
    assert(fold_e(false, ra) == done(ra));
    assert(spec_inner(la) == la);
    assert(spec_inner(ra) == ra);
    assert(strunc(b, a) == a);
    let f = fold_e(false, e);
    let u = fold_binary(e);
    assert(fold_binary_in(false, e) == u);
    assert(f.diags =~= Seq::<Diagnostic>::empty() + Seq::<Diagnostic>::empty() + u.diags);
}

/// `~v` on an unsigned literal of a sized width whose value fits it folds to `m - v`, `m` the
/// largest value of the width.
pub proof fn lemma_fold_unsigned_complement(v: u64, b: Bits, tok: Token, op: Token)
    requires
        op.type_ == TokenType::Tilde,
        is_sized(b),
        v <= umax(b),
    ensures
        fold_e(
            false,
            Expression::Unary {
                op,
                expr: Box::new(Expression::UnsignedIntLiteral { value: v, tok, bits: b }),
                is_prefix: true,
            },
        ) == (Folded {
            val: Expression::UnsignedIntLiteral { value: (umax(b) - v) as u64, tok, bits: b },
            diags: Seq::<Diagnostic>::empty(),
            ok: true,
        }),
{
    let lit = Expression::UnsignedIntLiteral { value: v, tok, bits: b };
    let e = Expression::Unary { op, expr: Box::new(lit), is_prefix: true };
    assert(fold_e(false, lit) == done(lit));
    assert(spec_inner(lit) == lit);
    match b {
        Bits::B8 => {
            assert((!(v as u8)) as u64 == 255 - v) by (bit_vector)
                requires
                    v <= 255,
            ;
        },
        Bits::B16 => {
            assert((!(v as u16)) as u64 == 65535 - v) by (bit_vector)
                requires
                    v <= 65535,
            ;
        },
        Bits::B32 => {
            assert((!(v as u32)) as u64 == 4294967295 - v) by (bit_vector)
                requires
                    v <= 4294967295,
            ;
        },
        _ => {
            assert(!v == 18446744073709551615 - v) by (bit_vector);
        },
    }
    assert(fold_e(false, e).diags =~= Seq::<Diagnostic>::empty());
}

/// `-v` on a signed literal folds to `-v` (of the same width), except on an untyped literal
/// above `2^63`, which is reported as a negated unsigned value.
pub proof fn lemma_fold_signed_negation(v: i128, b: Bits, tok: Token, op: Token)
    requires
        op.type_ == TokenType::Minus,
        v > i128::MIN,
    ensures
        ({
            let e = Expression::Unary {
                op,
                expr: Box::new(Expression::SignedIntLiteral { value: v, tok, bits: b }),
                is_prefix: true,
            };
            &&& !(b == Bits::Any && v > SIGNED_LIMIT) ==> fold_e(false, e) == Folded {
                val: Expression::SignedIntLiteral { value: (-v) as i128, tok, bits: b },
                diags: Seq::<Diagnostic>::empty(),
                ok: true,
            }
            &&& b == Bits::Any && v > SIGNED_LIMIT ==> fold_e(false, e).val == e && fold_e(false, e).diags.len() == 2
                && fold_e(false, e).diags[0] == error_at(e, Message::NegatedUnsigned)
        }),
{
    let lit = Expression::SignedIntLiteral { value: v, tok, bits: b };
    let e = Expression::Unary { op, expr: Box::new(lit), is_prefix: true };
    assert(fold_e(false, lit) == done(lit));
    assert(spec_inner(lit) == lit);
    assert(fold_e(false, e).diags =~= Seq::<Diagnostic>::empty() + fold_unary(e).diags);
}

/// `!v` on an integer literal folds to the 8-bit unsigned literal 1 where `v` is 0, and 0
/// otherwise.
pub proof fn lemma_fold_logical_not(lit: Expression, op: Token)
    requires
        op.type_ == TokenType::Bang,
        literal_int(lit) is Some,
    ensures
        ({
            let f = fold_e(false, Expression::Unary { op, expr: Box::new(lit), is_prefix: true });
            &&& f.diags.len() == 0
            &&& f.ok
            &&& f.val matches Expression::UnsignedIntLiteral { value, bits, .. } && bits == Bits::B8 && value == (if literal_int(
                lit,
            )->0 == 0 {
                1u64
            } else {
                0u64
            })
        }),
{
    let e = Expression::Unary { op, expr: Box::new(lit), is_prefix: true };
    assert(fold_e(false, lit) == done(lit)) by {
        match lit {
            Expression::SignedIntLiteral { .. } => {},
            Expression::UnsignedIntLiteral { .. } => {},
            _ => {},
        }
    }
    assert(spec_inner(lit) == lit);
    assert(fold_e(false, e).diags =~= Seq::<Diagnostic>::empty());
}

/// A ternary whose condition is an integer literal folds to the branch it selects: the first
/// where the literal is not 0, the second where it is (branches that are integer literals).
pub proof fn lemma_fold_literal_ternary(basic: bool, tok: Token, cond: Expression, then_expr: Expression, else_expr: Expression)
    requires
        literal_int(cond) is Some,
        literal_int(then_expr) is Some,
        literal_int(else_expr) is Some,
    ensures
        fold_e(
            basic,
            Expression::Ternary {
                tok,
                condition: Box::new(cond),
                then_expr: Box::new(then_expr),
                else_expr: Box::new(else_expr),
            },
        ) == done(if literal_int(cond)->0 != 0 { then_expr } else { else_expr }),
{
    assert forall|x: Expression| literal_int(x) is Some implies fold_e(basic, x) == done(x) by {
        match x {
            Expression::SignedIntLiteral { .. } => {},
            Expression::UnsignedIntLiteral { .. } => {},
            _ => {},
        }
    }
    assert(fold_e(basic, cond) == done(cond));
    assert(fold_e(basic, then_expr) == done(then_expr));
    assert(fold_e(basic, else_expr) == done(else_expr));
    assert(spec_inner(cond) == cond);
    let e = Expression::Ternary {
        tok,
        condition: Box::new(cond),
        then_expr: Box::new(then_expr),
        else_expr: Box::new(else_expr),
    };
    assert(fold_e(basic, e).diags =~= Seq::<Diagnostic>::empty());
}

/// The basic folder flips every bit of an unsigned literal whatever its width: `~v` folds to
/// `2^64 - 1 - v`.
pub proof fn lemma_basic_unsigned_complement(v: u64, b: Bits, tok: Token, op: Token)
    requires
        op.type_ == TokenType::Tilde,
    ensures
        fold_e(
            true,
            Expression::Unary {
                op,
                expr: Box::new(Expression::UnsignedIntLiteral { value: v, tok, bits: b }),
                is_prefix: true,
            },
        ) == (Folded {
            val: Expression::UnsignedIntLiteral { value: (18446744073709551615 - v) as u64, tok, bits: b },
            diags: Seq::<Diagnostic>::empty(),
            ok: true,
        }),
{
    let lit = Expression::UnsignedIntLiteral { value: v, tok, bits: b };
    let e = Expression::Unary { op, expr: Box::new(lit), is_prefix: true };
    assert(fold_e(true, lit) == done(lit));
    assert(spec_inner(lit) == lit);
    assert(!v == 18446744073709551615 - v) by (bit_vector);
    assert(fold_e(true, e).diags =~= Seq::<Diagnostic>::empty());
}

} // verus!
