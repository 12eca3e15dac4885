//! What the parser computes: a recursive-descent grammar over the token kinds.
//!
//! Each function takes the token kinds and a position and gives what it parsed
//! with the position after it, or `None` where the parser gives up. Positions
//! only move forward; the conditions `p < q <= ts.len()` on positions returned by
//! an inner parse state this, and always hold.
use vstd::prelude::*;

use crate::ast::declarations::{SpecDecl, SpecFunctionDecl, SpecVaribleDecl};
use crate::ast::expr::SpecExpr;
use crate::ast::operators::{BinaryOp, UnaryOp};
use crate::ast::param::SpecParam;
use crate::ast::stmt::SpecStmt;
use crate::lexer::keywords::Keyword;
use crate::lexer::literalvalue::SpecLiteral;
use crate::lexer::operators::Operator;
use crate::lexer::spec::SpecTokenType;
use crate::lexer::symbols::Symbol;
use crate::lexer::types::Type;

verus! {

pub type Kinds = Seq<SpecTokenType>;

pub type ExprResult = Option<(SpecExpr, int)>;

/// The token kind at `p`; the end of file past the end.
pub open spec fn kind_at(ts: Kinds, p: int) -> SpecTokenType {
    if 0 <= p < ts.len() {
        ts[p]
    } else {
        SpecTokenType::EOF
    }
}

pub open spec fn is_sym(ts: Kinds, p: int, y: Symbol) -> bool {
    kind_at(ts, p) == SpecTokenType::Symbol(y)
}

pub open spec fn is_op(ts: Kinds, p: int, o: Operator) -> bool {
    kind_at(ts, p) == SpecTokenType::Operater(o)
}

pub open spec fn is_kw(ts: Kinds, p: int, k: Keyword) -> bool {
    kind_at(ts, p) == SpecTokenType::Keyword(k)
}

pub open spec fn unary(op: UnaryOp, r: ExprResult) -> ExprResult {
    match r {
        Some((e, q)) => Some((SpecExpr::UnaryExp(op, Box::new(e)), q)),
        None => None,
    }
}

pub open spec fn bin(op: BinaryOp, l: SpecExpr, r: SpecExpr) -> SpecExpr {
    SpecExpr::BinaryExp(op, Box::new(l), Box::new(r))
}

/// The expression of a constant.
pub open spec fn const_expr(lit: SpecLiteral) -> SpecExpr {
    match lit {
        SpecLiteral::Interage(i) => SpecExpr::Integer(i),
        SpecLiteral::Float(t) => SpecExpr::Float(t),
        SpecLiteral::Char(c) => SpecExpr::Char(c),
        SpecLiteral::String(s) => SpecExpr::String(s),
    }
}

/// A name at `p`: a call `name(args)` when `(` follows, else the name itself.
pub open spec fn p_name(ts: Kinds, id: Seq<char>, p: int) -> ExprResult
    decreases ts.len() - p, 0nat,
{
    if is_sym(ts, p + 1, Symbol::LParen) {
        match p_args(ts, p + 2) {
            Some((args, q)) => if is_sym(ts, q, Symbol::RParen) {
                Some((SpecExpr::CallFunction(id, args), q + 1))
            } else {
                None
            },
            None => None,
        }
    } else {
        Some((SpecExpr::Identifier(id), p + 1))
    }
}

/// `( expr )` at `p`.
pub open spec fn p_paren(ts: Kinds, p: int) -> ExprResult
    decreases ts.len() - p, 0nat,
{
    if is_sym(ts, p, Symbol::LParen) {
        match p_expr(ts, p + 1) {
            Some((e, q)) => if is_sym(ts, q, Symbol::RParen) {
                Some((e, q + 1))
            } else {
                None
            },
            None => None,
        }
    } else {
        None
    }
}

/// A primary expression: a constant, a name, a call `name(args)`, or `(expr)`.
pub open spec fn p_primary(ts: Kinds, p: int) -> ExprResult
    decreases ts.len() - p, 1nat,
{
    match kind_at(ts, p) {
        SpecTokenType::Constant(lit) => Some((const_expr(lit), p + 1)),
        SpecTokenType::Identifer(id) => p_name(ts, id, p),
        SpecTokenType::Symbol(Symbol::LParen) => p_paren(ts, p),
        _ => None,
    }
}

/// The postfix operators after an expression `e` that ends at `q`: `++`, `--`, a
/// call (of a name only), an index, `->member` and `.member`.
pub open spec fn p_postfix_rest(ts: Kinds, e: SpecExpr, q: int) -> ExprResult
    decreases ts.len() - q, 2nat,
{
    match kind_at(ts, q) {
        SpecTokenType::Operater(Operator::PlusPlus) => p_postfix_rest(
            ts,
            SpecExpr::UnaryExp(UnaryOp::PostInc, Box::new(e)),
            q + 1,
        ),
        SpecTokenType::Operater(Operator::MinusMinus) => p_postfix_rest(
            ts,
            SpecExpr::UnaryExp(UnaryOp::PostDec, Box::new(e)),
            q + 1,
        ),
        SpecTokenType::Symbol(Symbol::LParen) => match p_args(ts, q + 1) {
            Some((args, q2)) => if is_sym(ts, q2, Symbol::RParen) && q < q2 {
                match e {
                    SpecExpr::Identifier(f) => p_postfix_rest(
                        ts,
                        SpecExpr::CallFunction(f, args),
                        q2 + 1,
                    ),
                    _ => None,
                }
            } else {
                None
            },
            None => None,
        },
        SpecTokenType::Symbol(Symbol::LBracket) => match p_expr(ts, q + 1) {
            Some((idx, q2)) => if is_sym(ts, q2, Symbol::RBracket) && q < q2 {
                p_postfix_rest(ts, SpecExpr::Index(Box::new(e), Box::new(idx)), q2 + 1)
            } else {
                None
            },
            None => None,
        },
        SpecTokenType::Operater(Operator::Arrow) => match kind_at(ts, q + 1) {
            SpecTokenType::Identifer(m) => p_postfix_rest(
                ts,
                SpecExpr::PointerMember(Box::new(e), m),
                q + 2,
            ),
            _ => None,
        },
        SpecTokenType::Operater(Operator::Dot) => match kind_at(ts, q + 1) {
            SpecTokenType::Identifer(m) => p_postfix_rest(
                ts,
                SpecExpr::Member(Box::new(e), m),
                q + 2,
            ),
            _ => None,
        },
        _ => Some((e, q)),
    }
}

pub open spec fn p_postfix(ts: Kinds, p: int) -> ExprResult
    decreases ts.len() - p, 3nat,
{
    match p_primary(ts, p) {
        Some((e, q)) => if p < q <= ts.len() {
            p_postfix_rest(ts, e, q)
        } else {
            None
        },
        None => None,
    }
}

/// The prefix operator that a token kind stands for, if any.
pub open spec fn prefix_op(k: SpecTokenType) -> Option<UnaryOp> {
    match k {
        SpecTokenType::Operater(Operator::LogicNot) => Some(UnaryOp::Not),
        SpecTokenType::Operater(Operator::Minus) => Some(UnaryOp::Neg),
        SpecTokenType::Operater(Operator::Tilde) => Some(UnaryOp::BitNot),
        SpecTokenType::Operater(Operator::Star) => Some(UnaryOp::Deref),
        SpecTokenType::Operater(Operator::And) => Some(UnaryOp::AddressOf),
        SpecTokenType::Operater(Operator::PlusPlus) => Some(UnaryOp::PreInc),
        SpecTokenType::Operater(Operator::MinusMinus) => Some(UnaryOp::PreDec),
        _ => None,
    }
}

/// Prefix operators: `!`, `-`, `~`, `*`, `&`, `++`, `--`, then a postfix expression.
pub open spec fn p_unary(ts: Kinds, p: int) -> ExprResult
    decreases ts.len() - p, 4nat,
{
    match prefix_op(kind_at(ts, p)) {
        Some(op) => unary(op, p_unary(ts, p + 1)),
        None => p_postfix(ts, p),
    }
}

/// The multiplicative operator at `q`, if any.
pub open spec fn mul_op(k: SpecTokenType) -> Option<BinaryOp> {
    match k {
        SpecTokenType::Operater(Operator::Star) => Some(BinaryOp::Mul),
        SpecTokenType::Operater(Operator::Slash) => Some(BinaryOp::Div),
        SpecTokenType::Operater(Operator::Percent) => Some(BinaryOp::Mod),
        _ => None,
    }
}

pub open spec fn p_mul_rest(ts: Kinds, l: SpecExpr, q: int) -> ExprResult
    decreases ts.len() - q, 5nat,
{
    match mul_op(kind_at(ts, q)) {
        Some(op) => match p_unary(ts, q + 1) {
            Some((r, q2)) => if q < q2 <= ts.len() {
                p_mul_rest(ts, bin(op, l, r), q2)
            } else {
                None
            },
            None => None,
        },
        None => Some((l, q)),
    }
}

/// `*`, `/`, `%`, left to right.
pub open spec fn p_mul(ts: Kinds, p: int) -> ExprResult
    decreases ts.len() - p, 6nat,
{
    match p_unary(ts, p) {
        Some((l, q)) => if p < q <= ts.len() {
            p_mul_rest(ts, l, q)
        } else {
            None
        },
        None => None,
    }
}

pub open spec fn add_op(k: SpecTokenType) -> Option<BinaryOp> {
    match k {
        SpecTokenType::Operater(Operator::Plus) => Some(BinaryOp::Add),
        SpecTokenType::Operater(Operator::Minus) => Some(BinaryOp::Sub),
        _ => None,
    }
}

pub open spec fn p_add_rest(ts: Kinds, l: SpecExpr, q: int) -> ExprResult
    decreases ts.len() - q, 7nat,
{
    match add_op(kind_at(ts, q)) {
        Some(op) => match p_mul(ts, q + 1) {
            Some((r, q2)) => if q < q2 <= ts.len() {
                p_add_rest(ts, bin(op, l, r), q2)
            } else {
                None
            },
            None => None,
        },
        None => Some((l, q)),
    }
}

/// `+`, `-`, left to right.
pub open spec fn p_add(ts: Kinds, p: int) -> ExprResult
    decreases ts.len() - p, 8nat,
{
    match p_mul(ts, p) {
        Some((l, q)) => if p < q <= ts.len() {
            p_add_rest(ts, l, q)
        } else {
            None
        },
        None => None,
    }
}

pub open spec fn rel_op(k: SpecTokenType) -> Option<BinaryOp> {
    match k {
        SpecTokenType::Operater(Operator::Lt) => Some(BinaryOp::Lt),
        SpecTokenType::Operater(Operator::Gt) => Some(BinaryOp::Gt),
        SpecTokenType::Operater(Operator::Le) => Some(BinaryOp::Le),
        SpecTokenType::Operater(Operator::Ge) => Some(BinaryOp::Ge),
        _ => None,
    }
}

pub open spec fn p_rel_rest(ts: Kinds, l: SpecExpr, q: int) -> ExprResult
    decreases ts.len() - q, 9nat,
{
    match rel_op(kind_at(ts, q)) {
        Some(op) => match p_add(ts, q + 1) {
            Some((r, q2)) => if q < q2 <= ts.len() {
                p_rel_rest(ts, bin(op, l, r), q2)
            } else {
                None
            },
            None => None,
        },
        None => Some((l, q)),
    }
}

/// `<`, `>`, `<=`, `>=`, left to right.
pub open spec fn p_rel(ts: Kinds, p: int) -> ExprResult
    decreases ts.len() - p, 10nat,
{
    match p_add(ts, p) {
        Some((l, q)) => if p < q <= ts.len() {
            p_rel_rest(ts, l, q)
        } else {
            None
        },
        None => None,
    }
}

pub open spec fn eq_op(k: SpecTokenType) -> Option<BinaryOp> {
    match k {
        SpecTokenType::Operater(Operator::Eq) => Some(BinaryOp::Eq),
        SpecTokenType::Operater(Operator::Neq) => Some(BinaryOp::Ne),
        _ => None,
    }
}

pub open spec fn p_eq_rest(ts: Kinds, l: SpecExpr, q: int) -> ExprResult
    decreases ts.len() - q, 11nat,
{
    match eq_op(kind_at(ts, q)) {
        Some(op) => match p_rel(ts, q + 1) {
            Some((r, q2)) => if q < q2 <= ts.len() {
                p_eq_rest(ts, bin(op, l, r), q2)
            } else {
                None
            },
            None => None,
        },
        None => Some((l, q)),
    }
}

/// `==`, `!=`, left to right.
pub open spec fn p_eq(ts: Kinds, p: int) -> ExprResult
    decreases ts.len() - p, 12nat,
{
    match p_rel(ts, p) {
        Some((l, q)) => if p < q <= ts.len() {
            p_eq_rest(ts, l, q)
        } else {
            None
        },
        None => None,
    }
}

pub open spec fn p_and_rest(ts: Kinds, l: SpecExpr, q: int) -> ExprResult
    decreases ts.len() - q, 13nat,
{
    if is_op(ts, q, Operator::LogicAnd) {
        match p_eq(ts, q + 1) {
            Some((r, q2)) => if q < q2 <= ts.len() {
                p_and_rest(ts, bin(BinaryOp::And, l, r), q2)
            } else {
                None
            },
            None => None,
        }
    } else {
        Some((l, q))
    }
}

/// `&&`, left to right.
pub open spec fn p_and(ts: Kinds, p: int) -> ExprResult
    decreases ts.len() - p, 14nat,
{
    match p_eq(ts, p) {
        Some((l, q)) => if p < q <= ts.len() {
            p_and_rest(ts, l, q)
        } else {
            None
        },
        None => None,
    }
}

pub open spec fn p_or_rest(ts: Kinds, l: SpecExpr, q: int) -> ExprResult
    decreases ts.len() - q, 15nat,
{
    if is_op(ts, q, Operator::LogicOr) {
        match p_and(ts, q + 1) {
            Some((r, q2)) => if q < q2 <= ts.len() {
                p_or_rest(ts, bin(BinaryOp::Or, l, r), q2)
            } else {
                None
            },
            None => None,
        }
    } else {
        Some((l, q))
    }
}

/// `||`, left to right.
pub open spec fn p_or(ts: Kinds, p: int) -> ExprResult
    decreases ts.len() - p, 16nat,
{
    match p_and(ts, p) {
        Some((l, q)) => if p < q <= ts.len() {
            p_or_rest(ts, l, q)
        } else {
            None
        },
        None => None,
    }
}

/// `=`, right to left.
pub open spec fn p_assign(ts: Kinds, p: int) -> ExprResult
    decreases ts.len() - p, 17nat,
{
    match p_or(ts, p) {
        Some((l, q)) => if is_op(ts, q, Operator::Assign) && p < q {
            match p_assign(ts, q + 1) {
                Some((r, q2)) => Some((SpecExpr::Assign(Box::new(l), Box::new(r)), q2)),
                None => None,
            }
        } else {
            Some((l, q))
        },
        None => None,
    }
}

/// An expression.
pub open spec fn p_expr(ts: Kinds, p: int) -> ExprResult
    decreases ts.len() - p, 18nat,
{
    p_assign(ts, p)
}

pub open spec fn p_args_rest(ts: Kinds, acc: Seq<SpecExpr>, q: int) -> Option<(Seq<SpecExpr>, int)>
    decreases ts.len() - q, 19nat,
{
    match kind_at(ts, q) {
        SpecTokenType::Symbol(Symbol::Comma) => match p_expr(ts, q + 1) {
            Some((e, q2)) => if q < q2 <= ts.len() {
                p_args_rest(ts, acc.push(e), q2)
            } else {
                None
            },
            None => None,
        },
        SpecTokenType::Symbol(Symbol::RParen) => Some((acc, q)),
        _ => None,
    }
}

/// The arguments of a call, up to (not including) the `)`.
pub open spec fn p_args(ts: Kinds, p: int) -> Option<(Seq<SpecExpr>, int)>
    decreases ts.len() - p, 20nat,
{
    if is_sym(ts, p, Symbol::RParen) {
        Some((Seq::empty(), p))
    } else {
        match p_expr(ts, p) {
            Some((e, q)) => if p < q <= ts.len() {
                p_args_rest(ts, seq![e], q)
            } else {
                None
            },
            None => None,
        }
    }
}

/// The `*`s after a type, each making it a pointer.
pub open spec fn p_stars(ts: Kinds, t: Type, q: int) -> Option<(Type, int)>
    decreases ts.len() - q,
{
    if is_op(ts, q, Operator::Star) && q < ts.len() {
        p_stars(ts, Type::Pointer(Box::new(t)), q + 1)
    } else {
        Some((t, q))
    }
}

/// A type: a type name and its `*`s. (No `typedef` names are known, so an
/// identifier is never a type.)
pub open spec fn p_type(ts: Kinds, p: int) -> Option<(Type, int)> {
    match kind_at(ts, p) {
        SpecTokenType::Type(t) => p_stars(ts, t, p + 1),
        _ => None,
    }
}

pub open spec fn p_params_from(ts: Kinds, acc: Seq<SpecParam>, q: int) -> Option<
    (Seq<SpecParam>, int),
>
    decreases ts.len() - q,
{
    match p_type(ts, q) {
        Some((t, q1)) => match kind_at(ts, q1) {
            SpecTokenType::Identifer(n) => {
                let acc2 = acc.push(SpecParam { typ: t, name: n });
                match kind_at(ts, q1 + 1) {
                    SpecTokenType::Symbol(Symbol::Comma) => if q < q1 {
                        p_params_from(ts, acc2, q1 + 2)
                    } else {
                        None
                    },
                    SpecTokenType::Symbol(Symbol::RParen) => Some((acc2, q1 + 1)),
                    _ => None,
                }
            },
            _ => None,
        },
        None => None,
    }
}

/// The parameters of a function, up to (not including) the `)`.
pub open spec fn p_params(ts: Kinds, p: int) -> Option<(Seq<SpecParam>, int)> {
    if is_sym(ts, p, Symbol::RParen) {
        Some((Seq::empty(), p))
    } else {
        p_params_from(ts, Seq::empty(), p)
    }
}

/// A block `{ statements }`.
pub open spec fn p_block(ts: Kinds, p: int) -> Option<(Seq<SpecStmt>, int)>
    decreases ts.len() - p, 21nat,
{
    if is_sym(ts, p, Symbol::LBrace) {
        p_block_from(ts, Seq::empty(), p + 1)
    } else {
        None
    }
}

pub open spec fn p_block_from(ts: Kinds, acc: Seq<SpecStmt>, q: int) -> Option<(Seq<SpecStmt>, int)>
    decreases ts.len() - q, 24nat,
{
    if is_sym(ts, q, Symbol::RBrace) {
        Some((acc, q + 1))
    } else {
        match p_stmt(ts, q) {
            Some((s, q2)) => if q < q2 <= ts.len() {
                p_block_from(ts, acc.push(s), q2)
            } else {
                None
            },
            None => None,
        }
    }
}

/// `if (condition) statement`, with an optional `else statement`.
pub open spec fn p_if(ts: Kinds, p: int) -> Option<(SpecStmt, int)>
    decreases ts.len() - p, 22nat,
{
    if is_kw(ts, p, Keyword::If) && is_sym(ts, p + 1, Symbol::LParen) {
        match p_expr(ts, p + 2) {
            Some((c, q)) => if is_sym(ts, q, Symbol::RParen) && p < q {
                match p_stmt(ts, q + 1) {
                    Some((t, q2)) => if is_kw(ts, q2, Keyword::Else) && p < q2 {
                        match p_stmt(ts, q2 + 1) {
                            Some((e, q3)) => Some(
                                (SpecStmt::If(c, Box::new(t), Some(Box::new(e))), q3),
                            ),
                            None => None,
                        }
                    } else {
                        Some((SpecStmt::If(c, Box::new(t), None), q2))
                    },
                    None => None,
                }
            } else {
                None
            },
            None => None,
        }
    } else {
        None
    }
}

/// `return;` or `return expr;`.
pub open spec fn p_return(ts: Kinds, p: int) -> Option<(SpecStmt, int)>
    decreases ts.len() - p, 22nat,
{
    if !is_kw(ts, p, Keyword::Return) {
        None
    } else if !is_sym(ts, p + 1, Symbol::Semicolon) {
        match p_expr(ts, p + 1) {
            Some((e, q)) => if is_sym(ts, q, Symbol::Semicolon) {
                Some((SpecStmt::Return(Some(e)), q + 1))
            } else {
                None
            },
            None => None,
        }
    } else {
        Some((SpecStmt::Return(None), p + 2))
    }
}

/// `expr;`.
pub open spec fn p_expr_stmt(ts: Kinds, p: int) -> Option<(SpecStmt, int)>
    decreases ts.len() - p, 22nat,
{
    match p_expr(ts, p) {
        Some((e, q)) => if is_sym(ts, q, Symbol::Semicolon) {
            Some((SpecStmt::Expr(e), q + 1))
        } else {
            None
        },
        None => None,
    }
}

/// A statement: `if`, `return`, a block, a variable declaration, or an expression
/// followed by `;`.
pub open spec fn p_stmt(ts: Kinds, p: int) -> Option<(SpecStmt, int)>
    decreases ts.len() - p, 23nat,
{
    match kind_at(ts, p) {
        SpecTokenType::Keyword(Keyword::If) => p_if(ts, p),
        SpecTokenType::Keyword(Keyword::Return) => p_return(ts, p),
        SpecTokenType::Symbol(Symbol::LBrace) => match p_block(ts, p) {
            Some((b, q)) => Some((SpecStmt::Block(b), q)),
            None => None,
        },
        SpecTokenType::Type(_) => match p_decl(ts, p) {
            Some((SpecDecl::Varible(v), q)) => Some((SpecStmt::VaribleDecl(v), q)),
            _ => None,
        },
        _ => p_expr_stmt(ts, p),
    }
}

/// A declaration: a type and a name, then either a function (parameters in
/// parentheses, then `;` or a body) or a variable (an optional `= expr`, then `;`).
pub open spec fn p_decl(ts: Kinds, p: int) -> Option<(SpecDecl, int)>
    decreases ts.len() - p, 22nat,
{
    match p_type(ts, p) {
        Some((t, q1)) => match kind_at(ts, q1) {
            SpecTokenType::Identifer(name) => {
                let q2 = q1 + 1;
                if is_sym(ts, q2, Symbol::LParen) {
                    match p_params(ts, q2 + 1) {
                        Some((ps, q3)) => if is_sym(ts, q3, Symbol::RParen) && p < q3 {
                            if is_sym(ts, q3 + 1, Symbol::Semicolon) {
                                Some(
                                    (
                                        SpecDecl::Function(
                                            SpecFunctionDecl {
                                                return_type: t,
                                                name,
                                                params: ps,
                                                body: None,
                                            },
                                        ),
                                        q3 + 2,
                                    ),
                                )
                            } else {
                                match p_block(ts, q3 + 1) {
                                    Some((b, q4)) => Some(
                                        (
                                            SpecDecl::Function(
                                                SpecFunctionDecl {
                                                    return_type: t,
                                                    name,
                                                    params: ps,
                                                    body: Some(b),
                                                },
                                            ),
                                            q4,
                                        ),
                                    ),
                                    None => None,
                                }
                            }
                        } else {
                            None
                        },
                        None => None,
                    }
                } else if is_op(ts, q2, Operator::Assign) && p < q1 {
                    match p_expr(ts, q2 + 1) {
                        Some((e, q4)) => if is_sym(ts, q4, Symbol::Semicolon) {
                            Some(
                                (
                                    SpecDecl::Varible(
                                        SpecVaribleDecl { typ: t, name, init: Some(e) },
                                    ),
                                    q4 + 1,
                                ),
                            )
                        } else {
                            None
                        },
                        None => None,
                    }
                } else if is_sym(ts, q2, Symbol::Semicolon) {
                    Some((SpecDecl::Varible(SpecVaribleDecl { typ: t, name, init: None }), q2 + 1))
                } else {
                    None
                }
            },
            _ => None,
        },
        None => None,
    }
}

/// The declarations from `p` up to the end of file.
pub open spec fn p_program_from(ts: Kinds, acc: Seq<SpecDecl>, p: int) -> Option<
    (Seq<SpecDecl>, int),
>
    decreases ts.len() - p,
{
    if kind_at(ts, p) is EOF {
        Some((acc, p))
    } else {
        match p_decl(ts, p) {
            Some((d, q)) => if p < q <= ts.len() {
                p_program_from(ts, acc.push(d), q)
            } else {
                None
            },
            None => None,
        }
    }
}

} // verus!

verus! {

// ---------------------------------------------------------------- operators and their tokens

/// The operator token that spells each binary operator.
pub open spec fn binary_spelling(op: BinaryOp) -> Operator {
    match op {
        BinaryOp::Add => Operator::Plus,
        BinaryOp::Sub => Operator::Minus,
        BinaryOp::Mul => Operator::Star,
        BinaryOp::Div => Operator::Slash,
        BinaryOp::Mod => Operator::Percent,
        BinaryOp::Eq => Operator::Eq,
        BinaryOp::Ne => Operator::Neq,
        BinaryOp::Lt => Operator::Lt,
        BinaryOp::Le => Operator::Le,
        BinaryOp::Gt => Operator::Gt,
        BinaryOp::Ge => Operator::Ge,
        BinaryOp::And => Operator::LogicAnd,
        BinaryOp::Or => Operator::LogicOr,
        BinaryOp::BitAnd => Operator::And,
        BinaryOp::BitOr => Operator::Or,
        BinaryOp::BitXor => Operator::Xor,
        BinaryOp::Shl => Operator::Shl,
        BinaryOp::Shr => Operator::Shr,
    }
}

/// The operator token that spells each prefix operator.
pub open spec fn prefix_spelling(op: UnaryOp) -> Operator {
    match op {
        UnaryOp::Neg => Operator::Minus,
        UnaryOp::Not => Operator::LogicNot,
        UnaryOp::BitNot => Operator::Tilde,
        UnaryOp::Deref => Operator::Star,
        UnaryOp::AddressOf => Operator::And,
        UnaryOp::PreInc | UnaryOp::PostInc => Operator::PlusPlus,
        UnaryOp::PreDec | UnaryOp::PostDec => Operator::MinusMinus,
    }
}

/// `l op r` at the multiplicative level: the token that spells `*`, `/` or `%`
/// joins `l` to the next operand with that very operator.
pub proof fn law_multiplicative_operators(ts: Kinds, l: SpecExpr, q: int, op: BinaryOp)
    requires
        op == BinaryOp::Mul || op == BinaryOp::Div || op == BinaryOp::Mod,
        is_op(ts, q, binary_spelling(op)),
    ensures
        (match p_unary(ts, q + 1) {
            Some((r, q2)) => (q < q2 <= ts.len() ==> p_mul_rest(ts, l, q)
            == p_mul_rest(ts, bin(op, l, r), q2)),
            None => true,
        }),
{
}

/// `l op r` at the additive level, for `+` and `-`.
pub proof fn law_additive_operators(ts: Kinds, l: SpecExpr, q: int, op: BinaryOp)
    requires
        op == BinaryOp::Add || op == BinaryOp::Sub,
        is_op(ts, q, binary_spelling(op)),
    ensures
        (match p_mul(ts, q + 1) {
            Some((r, q2)) => (q < q2 <= ts.len() ==> p_add_rest(ts, l, q)
            == p_add_rest(ts, bin(op, l, r), q2)),
            None => true,
        }),
{
}

/// `l op r` at the relational level, for `<`, `<=`, `>` and `>=`: each comparison
/// token gives the comparison it spells.
pub proof fn law_relational_operators(ts: Kinds, l: SpecExpr, q: int, op: BinaryOp)
    requires
        op == BinaryOp::Lt || op == BinaryOp::Le || op == BinaryOp::Gt || op == BinaryOp::Ge,
        is_op(ts, q, binary_spelling(op)),
    ensures
        (match p_add(ts, q + 1) {
            Some((r, q2)) => (q < q2 <= ts.len() ==> p_rel_rest(ts, l, q)
            == p_rel_rest(ts, bin(op, l, r), q2)),
            None => true,
        }),
{
}

/// `l op r` at the equality level, for `==` and `!=`.
pub proof fn law_equality_operators(ts: Kinds, l: SpecExpr, q: int, op: BinaryOp)
    requires
        op == BinaryOp::Eq || op == BinaryOp::Ne,
        is_op(ts, q, binary_spelling(op)),
    ensures
        (match p_rel(ts, q + 1) {
            Some((r, q2)) => (q < q2 <= ts.len() ==> p_eq_rest(ts, l, q)
            == p_eq_rest(ts, bin(op, l, r), q2)),
            None => true,
        }),
{
}

/// `l && r` and `l || r` build the logical operators they spell.
pub proof fn law_logical_operators(ts: Kinds, l: SpecExpr, q: int)
    ensures
        is_op(ts, q, binary_spelling(BinaryOp::And)) ==> (match p_eq(ts, q + 1) {
            Some((r, q2)) => (q < q2 <= ts.len() ==> p_and_rest(ts, l, q) == p_and_rest(
                ts,
                bin(BinaryOp::And, l, r),
                q2,
            )),
            None => true,
        }),
        is_op(ts, q, binary_spelling(BinaryOp::Or)) ==> (match p_and(ts, q + 1) {
            Some((r, q2)) => (q < q2 <= ts.len() ==> p_or_rest(ts, l, q) == p_or_rest(
                ts,
                bin(BinaryOp::Or, l, r),
                q2,
            )),
            None => true,
        }),
{
}

/// A prefix token gives the prefix operator it spells, applied to what follows.
pub proof fn law_prefix_operators(ts: Kinds, p: int, op: UnaryOp)
    requires
        op == UnaryOp::Neg || op == UnaryOp::Not || op == UnaryOp::BitNot || op == UnaryOp::Deref
            || op == UnaryOp::AddressOf || op == UnaryOp::PreInc || op == UnaryOp::PreDec,
        is_op(ts, p, prefix_spelling(op)),
    ensures
        p_unary(ts, p) == unary(op, p_unary(ts, p + 1)),
{
}

/// `e++` and `e--` after an expression give the postfix operator they spell.
pub proof fn law_postfix_operators(ts: Kinds, e: SpecExpr, q: int, op: UnaryOp)
    requires
        op == UnaryOp::PostInc || op == UnaryOp::PostDec,
        is_op(ts, q, prefix_spelling(op)),
    ensures
        p_postfix_rest(ts, e, q) == p_postfix_rest(ts, SpecExpr::UnaryExp(op, Box::new(e)), q + 1),
{
}

} // verus!
