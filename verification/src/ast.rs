pub mod block;
pub mod declarations;
pub mod expr;
pub mod field;
pub mod grammar;
pub mod operators;
pub mod param;
pub mod program;
pub mod program_structure;
pub mod stmt;
pub mod structure;
pub mod typedef;

pub use crate::lexer::types::Type;

use vstd::prelude::*;

use crate::ast::block::Block;
use crate::ast::declarations::{decls_view, Decl, FunctionDecl, SpecDecl, VaribleDecl};
use crate::ast::expr::{exprs_view, Expr, SpecExpr};
use crate::ast::grammar::{
    add_op, const_expr, eq_op, is_kw, prefix_op, p_name, p_paren, p_if, p_return, p_expr_stmt, is_op, is_sym, kind_at, mul_op, p_add, p_add_rest, p_and, p_and_rest,
    p_args, p_args_rest, p_assign, p_block, p_block_from, p_decl, p_eq, p_eq_rest, p_expr,
    p_mul, p_mul_rest, p_or, p_or_rest, p_params, p_params_from, p_postfix, p_postfix_rest,
    p_primary, p_program_from, p_rel, p_rel_rest, p_stars, p_stmt, p_type, p_unary, rel_op,
    ExprResult, Kinds,
};
use crate::ast::operators::{BinaryOp, UnaryOp};
use crate::ast::param::{params_view, Param, SpecParam};
use crate::ast::program::Program;
use crate::ast::stmt::{stmts_view, SpecStmt, Stmt};
use crate::lexer::keywords::Keyword;
use crate::lexer::literalvalue::Literal;
use crate::lexer::operators::Operator;
use crate::lexer::symbols::Symbol;
use crate::lexer::{Token, TokenType};

verus! {

/// The kinds of a list of tokens.
pub open spec fn kinds(ts: Seq<Token>) -> Kinds {
    ts.map_values(|t: Token| t@.typ)
}

pub open spec fn expr_res(r: Option<(Expr, usize)>, s: ExprResult) -> bool {
    match s {
        Some((e, q)) => r matches Some((x, q2)) && x@ == e && q2 as int == q,
        None => r is None,
    }
}

pub open spec fn args_res(r: Option<(Vec<Expr>, usize)>, s: Option<(Seq<SpecExpr>, int)>) -> bool {
    match s {
        Some((es, q)) => r matches Some((v, q2)) && exprs_view(v@) == es && q2 as int == q,
        None => r is None,
    }
}

pub open spec fn type_res(r: Option<(Type, usize)>, s: Option<(Type, int)>) -> bool {
    match s {
        Some((t, q)) => r matches Some((x, q2)) && x == t && q2 as int == q,
        None => r is None,
    }
}

pub open spec fn params_res(r: Option<(Vec<Param>, usize)>, s: Option<(Seq<SpecParam>, int)>) -> bool {
    match s {
        Some((ps, q)) => r matches Some((v, q2)) && params_view(v@) == ps && q2 as int == q,
        None => r is None,
    }
}

pub open spec fn stmts_res(r: Option<(Vec<Stmt>, usize)>, s: Option<(Seq<SpecStmt>, int)>) -> bool {
    match s {
        Some((ss, q)) => r matches Some((v, q2)) && stmts_view(v@) == ss && q2 as int == q,
        None => r is None,
    }
}

pub open spec fn stmt_res(r: Option<(Stmt, usize)>, s: Option<(SpecStmt, int)>) -> bool {
    match s {
        Some((st, q)) => r matches Some((x, q2)) && x@ == st && q2 as int == q,
        None => r is None,
    }
}

pub open spec fn decl_res(r: Option<(Decl, usize)>, s: Option<(SpecDecl, int)>) -> bool {
    match s {
        Some((d, q)) => r matches Some((x, q2)) && x@ == d && q2 as int == q,
        None => r is None,
    }
}

/// The kind of the token at `p`; the end of file past the end.
fn peek(ts: &Vec<Token>, p: usize) -> (r: TokenType)
    ensures
        r@ == kind_at(kinds(ts@), p as int),
        !(r@ is EOF) ==> p < ts.len(),
{
    if p < ts.len() {
        ts[p].get_token_type()
    } else {
        TokenType::EOF
    }
}

fn sym_at(ts: &Vec<Token>, p: usize, y: Symbol) -> (r: bool)
    ensures
        r == is_sym(kinds(ts@), p as int, y),
        r ==> p < ts.len(),
{
    match peek(ts, p) {
        TokenType::Symbol(s) => s == y,
        _ => false,
    }
}

fn op_at(ts: &Vec<Token>, p: usize, o: Operator) -> (r: bool)
    ensures
        r == is_op(kinds(ts@), p as int, o),
        r ==> p < ts.len(),
{
    match peek(ts, p) {
        TokenType::Operater(x) => x == o,
        _ => false,
    }
}

fn kw_at(ts: &Vec<Token>, p: usize, k: Keyword) -> (r: bool)
    ensures
        r == is_kw(kinds(ts@), p as int, k),
        r ==> p < ts.len(),
{
    match peek(ts, p) {
        TokenType::Keyword(x) => x == k,
        _ => false,
    }
}

proof fn lemma_exprs_push(v: Seq<Expr>, e: Expr)
    ensures
        exprs_view(v.push(e)) == exprs_view(v).push(e@),
{
    assert(v.push(e).drop_last() =~= v);
}

proof fn lemma_stmts_push(v: Seq<Stmt>, s: Stmt)
    ensures
        stmts_view(v.push(s)) == stmts_view(v).push(s@),
{
    assert(v.push(s).drop_last() =~= v);
}

fn const_expr_of(lit: Literal) -> (e: Expr)
    ensures
        e@ == const_expr(lit@),
{
    match lit {
        Literal::Interage(i) => Expr::Integer(i),
        Literal::Float(t) => Expr::Float(t),
        Literal::Char(c) => Expr::Char(c),
        Literal::String(s) => Expr::String(s),
    }
}

fn parse_name(ts: &Vec<Token>, id: String, p: usize) -> (r: Option<(Expr, usize)>)
    requires
        p < ts.len(),
    ensures
        expr_res(r, p_name(kinds(ts@), id@, p as int)),
        r matches Some((_, q)) ==> p < q <= ts@.len(),
    decreases ts@.len() - p, 0nat,
{
    if sym_at(ts, p + 1, Symbol::LParen) {
        match parse_args(ts, p + 2) {
            Some((args, q)) => if sym_at(ts, q, Symbol::RParen) {
                Some((Expr::CallFunction(id, args), q + 1))
            } else {
                None
            },
            None => None,
        }
    } else {
        Some((Expr::Identifier(id), p + 1))
    }
}

fn parse_paren(ts: &Vec<Token>, p: usize) -> (r: Option<(Expr, usize)>)
    requires
        p <= ts@.len(),
    ensures
        expr_res(r, p_paren(kinds(ts@), p as int)),
        r matches Some((_, q)) ==> p < q <= ts@.len(),
    decreases ts@.len() - p, 0nat,
{
    if sym_at(ts, p, Symbol::LParen) {
        match parse_expr(ts, p + 1) {
            Some((e, q)) => if sym_at(ts, q, Symbol::RParen) {
                Some((e, q + 1))
            } else {
                None
            },
            None => None,
        }
    } else {
        None
    }
}

fn parse_primary(ts: &Vec<Token>, p: usize) -> (r: Option<(Expr, usize)>)
    requires
        p <= ts@.len(),
    ensures
        expr_res(r, p_primary(kinds(ts@), p as int)),
        r matches Some((_, q)) ==> p < q <= ts@.len(),
    decreases ts@.len() - p, 1nat,
{
    match peek(ts, p) {
        TokenType::Constant(lit) => Some((const_expr_of(lit), p + 1)),
        TokenType::Identifer(id) => parse_name(ts, id, p),
        TokenType::Symbol(Symbol::LParen) => parse_paren(ts, p),
        _ => None,
    }
}

#[verifier::rlimit(60)]
fn parse_postfix_rest(ts: &Vec<Token>, e: Expr, q: usize) -> (r: Option<(Expr, usize)>)
    requires
        q <= ts@.len(),
    ensures
        expr_res(r, p_postfix_rest(kinds(ts@), e@, q as int)),
        r matches Some((_, q2)) ==> q <= q2 <= ts@.len(),
    decreases ts@.len() - q, 2nat,
{
    match peek(ts, q) {
        TokenType::Operater(Operator::PlusPlus) => parse_postfix_rest(
            ts,
            Expr::UnaryExp(UnaryOp::PostInc, Box::new(e)),
            q + 1,
        ),
        TokenType::Operater(Operator::MinusMinus) => parse_postfix_rest(
            ts,
            Expr::UnaryExp(UnaryOp::PostDec, Box::new(e)),
            q + 1,
        ),
        TokenType::Symbol(Symbol::LParen) => match parse_args(ts, q + 1) {
            Some((args, q2)) => if sym_at(ts, q2, Symbol::RParen) {
                match e {
                    Expr::Identifier(f) => parse_postfix_rest(
                        ts,
                        Expr::CallFunction(f, args),
                        q2 + 1,
                    ),
                    _ => None,
                }
            } else {
                None
            },
            None => None,
        },
        TokenType::Symbol(Symbol::LBracket) => match parse_expr(ts, q + 1) {
            Some((idx, q2)) => if sym_at(ts, q2, Symbol::RBracket) {
                parse_postfix_rest(ts, Expr::Index(Box::new(e), Box::new(idx)), q2 + 1)
            } else {
                None
            },
            None => None,
        },
        TokenType::Operater(Operator::Arrow) => match peek(ts, q + 1) {
            TokenType::Identifer(m) => parse_postfix_rest(
                ts,
                Expr::PointerMember(Box::new(e), m),
                q + 2,
            ),
            _ => None,
        },
        TokenType::Operater(Operator::Dot) => match peek(ts, q + 1) {
            TokenType::Identifer(m) => parse_postfix_rest(ts, Expr::Member(Box::new(e), m), q + 2),
            _ => None,
        },
        _ => Some((e, q)),
    }
}

fn parse_postfix(ts: &Vec<Token>, p: usize) -> (r: Option<(Expr, usize)>)
    requires
        p <= ts@.len(),
    ensures
        expr_res(r, p_postfix(kinds(ts@), p as int)),
        r matches Some((_, q)) ==> p < q <= ts@.len(),
    decreases ts@.len() - p, 3nat,
{
    match parse_primary(ts, p) {
        Some((e, q)) => parse_postfix_rest(ts, e, q),
        None => None,
    }
}

fn unary_of(op: UnaryOp, r: Option<(Expr, usize)>) -> (o: Option<(Expr, usize)>)
    ensures
        r matches Some((e, q)) ==> o matches Some((x, q2)) && x@ == SpecExpr::UnaryExp(
            op,
            Box::new(e@),
        ) && q2 == q,
        r is None ==> o is None,
{
    match r {
        Some((e, q)) => Some((Expr::UnaryExp(op, Box::new(e)), q)),
        None => None,
    }
}

fn prefix_op_at(ts: &Vec<Token>, p: usize) -> (r: Option<UnaryOp>)
    ensures
        r == prefix_op(kind_at(kinds(ts@), p as int)),
        r is Some ==> p < ts.len(),
{
    match peek(ts, p) {
        TokenType::Operater(Operator::LogicNot) => Some(UnaryOp::Not),
        TokenType::Operater(Operator::Minus) => Some(UnaryOp::Neg),
        TokenType::Operater(Operator::Tilde) => Some(UnaryOp::BitNot),
        TokenType::Operater(Operator::Star) => Some(UnaryOp::Deref),
        TokenType::Operater(Operator::And) => Some(UnaryOp::AddressOf),
        TokenType::Operater(Operator::PlusPlus) => Some(UnaryOp::PreInc),
        TokenType::Operater(Operator::MinusMinus) => Some(UnaryOp::PreDec),
        _ => None,
    }
}

fn parse_unary(ts: &Vec<Token>, p: usize) -> (r: Option<(Expr, usize)>)
    requires
        p <= ts@.len(),
    ensures
        expr_res(r, p_unary(kinds(ts@), p as int)),
        r matches Some((_, q)) ==> p < q <= ts@.len(),
    decreases ts@.len() - p, 4nat,
{
    match prefix_op_at(ts, p) {
        Some(op) => unary_of(op, parse_unary(ts, p + 1)),
        None => parse_postfix(ts, p),
    }
}

fn bin_of(op: BinaryOp, l: Expr, r: Expr) -> (e: Expr)
    ensures
        e@ == SpecExpr::BinaryExp(op, Box::new(l@), Box::new(r@)),
{
    Expr::BinaryExp(op, Box::new(l), Box::new(r))
}

fn mul_op_at(ts: &Vec<Token>, q: usize) -> (r: Option<BinaryOp>)
    ensures
        r == mul_op(kind_at(kinds(ts@), q as int)),
        r is Some ==> q < ts.len(),
{
    match peek(ts, q) {
        TokenType::Operater(Operator::Star) => Some(BinaryOp::Mul),
        TokenType::Operater(Operator::Slash) => Some(BinaryOp::Div),
        TokenType::Operater(Operator::Percent) => Some(BinaryOp::Mod),
        _ => None,
    }
}

fn parse_mul_rest(ts: &Vec<Token>, l: Expr, q: usize) -> (r: Option<(Expr, usize)>)
    requires
        q <= ts@.len(),
    ensures
        expr_res(r, p_mul_rest(kinds(ts@), l@, q as int)),
        r matches Some((_, q2)) ==> q <= q2 <= ts@.len(),
    decreases ts@.len() - q, 5nat,
{
    match mul_op_at(ts, q) {
        Some(op) => match parse_unary(ts, q + 1) {
            Some((r, q2)) => parse_mul_rest(ts, bin_of(op, l, r), q2),
            None => None,
        },
        None => Some((l, q)),
    }
}

fn parse_mul(ts: &Vec<Token>, p: usize) -> (r: Option<(Expr, usize)>)
    requires
        p <= ts@.len(),
    ensures
        expr_res(r, p_mul(kinds(ts@), p as int)),
        r matches Some((_, q)) ==> p < q <= ts@.len(),
    decreases ts@.len() - p, 6nat,
{
    match parse_unary(ts, p) {
        Some((l, q)) => parse_mul_rest(ts, l, q),
        None => None,
    }
}

fn add_op_at(ts: &Vec<Token>, q: usize) -> (r: Option<BinaryOp>)
    ensures
        r == add_op(kind_at(kinds(ts@), q as int)),
        r is Some ==> q < ts.len(),
{
    match peek(ts, q) {
        TokenType::Operater(Operator::Plus) => Some(BinaryOp::Add),
        TokenType::Operater(Operator::Minus) => Some(BinaryOp::Sub),
        _ => None,
    }
}

fn parse_add_rest(ts: &Vec<Token>, l: Expr, q: usize) -> (r: Option<(Expr, usize)>)
    requires
        q <= ts@.len(),
    ensures
        expr_res(r, p_add_rest(kinds(ts@), l@, q as int)),
        r matches Some((_, q2)) ==> q <= q2 <= ts@.len(),
    decreases ts@.len() - q, 7nat,
{
    match add_op_at(ts, q) {
        Some(op) => match parse_mul(ts, q + 1) {
            Some((r, q2)) => parse_add_rest(ts, bin_of(op, l, r), q2),
            None => None,
        },
        None => Some((l, q)),
    }
}

fn parse_add(ts: &Vec<Token>, p: usize) -> (r: Option<(Expr, usize)>)
    requires
        p <= ts@.len(),
    ensures
        expr_res(r, p_add(kinds(ts@), p as int)),
        r matches Some((_, q)) ==> p < q <= ts@.len(),
    decreases ts@.len() - p, 8nat,
{
    match parse_mul(ts, p) {
        Some((l, q)) => parse_add_rest(ts, l, q),
        None => None,
    }
}

fn rel_op_at(ts: &Vec<Token>, q: usize) -> (r: Option<BinaryOp>)
    ensures
        r == rel_op(kind_at(kinds(ts@), q as int)),
        r is Some ==> q < ts.len(),
{
    match peek(ts, q) {
        TokenType::Operater(Operator::Lt) => Some(BinaryOp::Lt),
        TokenType::Operater(Operator::Gt) => Some(BinaryOp::Gt),
        TokenType::Operater(Operator::Le) => Some(BinaryOp::Le),
        TokenType::Operater(Operator::Ge) => Some(BinaryOp::Ge),
        _ => None,
    }
}

fn parse_rel_rest(ts: &Vec<Token>, l: Expr, q: usize) -> (r: Option<(Expr, usize)>)
    requires
        q <= ts@.len(),
    ensures
        expr_res(r, p_rel_rest(kinds(ts@), l@, q as int)),
        r matches Some((_, q2)) ==> q <= q2 <= ts@.len(),
    decreases ts@.len() - q, 9nat,
{
    match rel_op_at(ts, q) {
        Some(op) => match parse_add(ts, q + 1) {
            Some((r, q2)) => parse_rel_rest(ts, bin_of(op, l, r), q2),
            None => None,
        },
        None => Some((l, q)),
    }
}

fn parse_rel(ts: &Vec<Token>, p: usize) -> (r: Option<(Expr, usize)>)
    requires
        p <= ts@.len(),
    ensures
        expr_res(r, p_rel(kinds(ts@), p as int)),
        r matches Some((_, q)) ==> p < q <= ts@.len(),
    decreases ts@.len() - p, 10nat,
{
    match parse_add(ts, p) {
        Some((l, q)) => parse_rel_rest(ts, l, q),
        None => None,
    }
}

fn eq_op_at(ts: &Vec<Token>, q: usize) -> (r: Option<BinaryOp>)
    ensures
        r == eq_op(kind_at(kinds(ts@), q as int)),
        r is Some ==> q < ts.len(),
{
    match peek(ts, q) {
        TokenType::Operater(Operator::Eq) => Some(BinaryOp::Eq),
        TokenType::Operater(Operator::Neq) => Some(BinaryOp::Ne),
        _ => None,
    }
}

fn parse_eq_rest(ts: &Vec<Token>, l: Expr, q: usize) -> (r: Option<(Expr, usize)>)
    requires
        q <= ts@.len(),
    ensures
        expr_res(r, p_eq_rest(kinds(ts@), l@, q as int)),
        r matches Some((_, q2)) ==> q <= q2 <= ts@.len(),
    decreases ts@.len() - q, 11nat,
{
    match eq_op_at(ts, q) {
        Some(op) => match parse_rel(ts, q + 1) {
            Some((r, q2)) => parse_eq_rest(ts, bin_of(op, l, r), q2),
            None => None,
        },
        None => Some((l, q)),
    }
}

fn parse_eq(ts: &Vec<Token>, p: usize) -> (r: Option<(Expr, usize)>)
    requires
        p <= ts@.len(),
    ensures
        expr_res(r, p_eq(kinds(ts@), p as int)),
        r matches Some((_, q)) ==> p < q <= ts@.len(),
    decreases ts@.len() - p, 12nat,
{
    match parse_rel(ts, p) {
        Some((l, q)) => parse_eq_rest(ts, l, q),
        None => None,
    }
}

fn parse_and_rest(ts: &Vec<Token>, l: Expr, q: usize) -> (r: Option<(Expr, usize)>)
    requires
        q <= ts@.len(),
    ensures
        expr_res(r, p_and_rest(kinds(ts@), l@, q as int)),
        r matches Some((_, q2)) ==> q <= q2 <= ts@.len(),
    decreases ts@.len() - q, 13nat,
{
    if op_at(ts, q, Operator::LogicAnd) {
        match parse_eq(ts, q + 1) {
            Some((r, q2)) => parse_and_rest(ts, bin_of(BinaryOp::And, l, r), q2),
            None => None,
        }
    } else {
        Some((l, q))
    }
}

fn parse_and(ts: &Vec<Token>, p: usize) -> (r: Option<(Expr, usize)>)
    requires
        p <= ts@.len(),
    ensures
        expr_res(r, p_and(kinds(ts@), p as int)),
        r matches Some((_, q)) ==> p < q <= ts@.len(),
    decreases ts@.len() - p, 14nat,
{
    match parse_eq(ts, p) {
        Some((l, q)) => parse_and_rest(ts, l, q),
        None => None,
    }
}

fn parse_or_rest(ts: &Vec<Token>, l: Expr, q: usize) -> (r: Option<(Expr, usize)>)
    requires
        q <= ts@.len(),
    ensures
        expr_res(r, p_or_rest(kinds(ts@), l@, q as int)),
        r matches Some((_, q2)) ==> q <= q2 <= ts@.len(),
    decreases ts@.len() - q, 15nat,
{
    if op_at(ts, q, Operator::LogicOr) {
        match parse_and(ts, q + 1) {
            Some((r, q2)) => parse_or_rest(ts, bin_of(BinaryOp::Or, l, r), q2),
            None => None,
        }
    } else {
        Some((l, q))
    }
}

fn parse_or(ts: &Vec<Token>, p: usize) -> (r: Option<(Expr, usize)>)
    requires
        p <= ts@.len(),
    ensures
        expr_res(r, p_or(kinds(ts@), p as int)),
        r matches Some((_, q)) ==> p < q <= ts@.len(),
    decreases ts@.len() - p, 16nat,
{
    match parse_and(ts, p) {
        Some((l, q)) => parse_or_rest(ts, l, q),
        None => None,
    }
}

fn parse_assign(ts: &Vec<Token>, p: usize) -> (r: Option<(Expr, usize)>)
    requires
        p <= ts@.len(),
    ensures
        expr_res(r, p_assign(kinds(ts@), p as int)),
        r matches Some((_, q)) ==> p < q <= ts@.len(),
    decreases ts@.len() - p, 17nat,
{
    match parse_or(ts, p) {
        Some((l, q)) => if op_at(ts, q, Operator::Assign) {
            match parse_assign(ts, q + 1) {
                Some((r, q2)) => Some((Expr::Assign(Box::new(l), Box::new(r)), q2)),
                None => None,
            }
        } else {
            Some((l, q))
        },
        None => None,
    }
}

fn parse_expr(ts: &Vec<Token>, p: usize) -> (r: Option<(Expr, usize)>)
    requires
        p <= ts@.len(),
    ensures
        expr_res(r, p_expr(kinds(ts@), p as int)),
        r matches Some((_, q)) ==> p < q <= ts@.len(),
    decreases ts@.len() - p, 18nat,
{
    parse_assign(ts, p)
}

fn parse_args_rest(ts: &Vec<Token>, acc: Vec<Expr>, q: usize) -> (r: Option<(Vec<Expr>, usize)>)
    requires
        q <= ts@.len(),
    ensures
        args_res(r, p_args_rest(kinds(ts@), exprs_view(acc@), q as int)),
        r matches Some((_, q2)) ==> q <= q2 <= ts@.len(),
    decreases ts@.len() - q, 19nat,
{
    match peek(ts, q) {
        TokenType::Symbol(Symbol::Comma) => match parse_expr(ts, q + 1) {
            Some((e, q2)) => {
                let mut acc = acc;
                proof {
                    lemma_exprs_push(acc@, e);
                }
                acc.push(e);
                parse_args_rest(ts, acc, q2)
            },
            None => None,
        },
        TokenType::Symbol(Symbol::RParen) => Some((acc, q)),
        _ => None,
    }
}

fn parse_args(ts: &Vec<Token>, p: usize) -> (r: Option<(Vec<Expr>, usize)>)
    requires
        p <= ts@.len(),
    ensures
        args_res(r, p_args(kinds(ts@), p as int)),
        r matches Some((_, q)) ==> p <= q <= ts@.len(),
    decreases ts@.len() - p, 20nat,
{
    if sym_at(ts, p, Symbol::RParen) {
        let v: Vec<Expr> = Vec::new();
        assert(exprs_view(v@) =~= Seq::<SpecExpr>::empty());
        return Some((v, p));
    }
    match parse_expr(ts, p) {
        Some((e, q)) => {
            let mut v: Vec<Expr> = Vec::new();
            proof {
                lemma_exprs_push(v@, e);
                assert(exprs_view(v@) =~= Seq::<SpecExpr>::empty());
                assert(Seq::<SpecExpr>::empty().push(e@) =~= seq![e@]);
            }
            v.push(e);
            parse_args_rest(ts, v, q)
        },
        None => None,
    }
}

fn parse_stars(ts: &Vec<Token>, t: Type, q: usize) -> (r: Option<(Type, usize)>)
    requires
        q <= ts@.len(),
    ensures
        type_res(r, p_stars(kinds(ts@), t, q as int)),
        r matches Some((_, q2)) ==> q <= q2 <= ts@.len(),
    decreases ts@.len() - q,
{
    if op_at(ts, q, Operator::Star) && q < ts.len() {
        parse_stars(ts, Type::Pointer(Box::new(t)), q + 1)
    } else {
        Some((t, q))
    }
}

/// A type name and its `*`s. No `typedef` names are ever recorded, so an
/// identifier in the place of a type is rejected.
fn parse_type(ts: &Vec<Token>, p: usize) -> (r: Option<(Type, usize)>)
    requires
        p <= ts@.len(),
    ensures
        type_res(r, p_type(kinds(ts@), p as int)),
        r matches Some((_, q)) ==> p < q <= ts@.len(),
{
    match peek(ts, p) {
        TokenType::Type(t) => parse_stars(ts, t, p + 1),
        _ => None,
    }
}

fn parse_params_from(ts: &Vec<Token>, acc: Vec<Param>, q: usize) -> (r: Option<(Vec<Param>, usize)>)
    requires
        q <= ts@.len(),
    ensures
        params_res(r, p_params_from(kinds(ts@), params_view(acc@), q as int)),
        r matches Some((_, q2)) ==> q < q2 <= ts@.len(),
    decreases ts@.len() - q,
{
    match parse_type(ts, q) {
        Some((t, q1)) => match peek(ts, q1) {
            TokenType::Identifer(n) => {
                let mut acc = acc;
                let ghost before = params_view(acc@);
                acc.push(Param { typ: t, name: n });
                assert(params_view(acc@) =~= before.push(acc@.last()@));
                match peek(ts, q1 + 1) {
                    TokenType::Symbol(Symbol::Comma) => parse_params_from(ts, acc, q1 + 2),
                    TokenType::Symbol(Symbol::RParen) => Some((acc, q1 + 1)),
                    _ => None,
                }
            },
            _ => None,
        },
        None => None,
    }
}

fn parse_params(ts: &Vec<Token>, p: usize) -> (r: Option<(Vec<Param>, usize)>)
    requires
        p <= ts@.len(),
    ensures
        params_res(r, p_params(kinds(ts@), p as int)),
        r matches Some((_, q)) ==> p <= q <= ts@.len(),
{
    let v: Vec<Param> = Vec::new();
    assert(params_view(v@) =~= Seq::<SpecParam>::empty());
    if sym_at(ts, p, Symbol::RParen) {
        return Some((v, p));
    }
    parse_params_from(ts, v, p)
}

fn parse_block(ts: &Vec<Token>, p: usize) -> (r: Option<(Block, usize)>)
    requires
        p <= ts@.len(),
    ensures
        match p_block(kinds(ts@), p as int) {
            Some((ss, q)) => r matches Some((b, q2)) && b@ == ss && q2 as int == q,
            None => r is None,
        },
        r matches Some((_, q)) ==> p < q <= ts@.len(),
    decreases ts@.len() - p, 21nat,
{
    if sym_at(ts, p, Symbol::LBrace) {
        let v: Vec<Stmt> = Vec::new();
        assert(stmts_view(v@) =~= Seq::<SpecStmt>::empty());
        match parse_block_from(ts, v, p + 1) {
            Some((stmts, q)) => Some((Block { stmts }, q)),
            None => None,
        }
    } else {
        None
    }
}

fn parse_block_from(ts: &Vec<Token>, acc: Vec<Stmt>, q: usize) -> (r: Option<(Vec<Stmt>, usize)>)
    requires
        q <= ts@.len(),
    ensures
        stmts_res(r, p_block_from(kinds(ts@), stmts_view(acc@), q as int)),
        r matches Some((_, q2)) ==> q < q2 <= ts@.len(),
    decreases ts@.len() - q, 24nat,
{
    if sym_at(ts, q, Symbol::RBrace) {
        Some((acc, q + 1))
    } else {
        match parse_stmt(ts, q) {
            Some((s, q2)) => {
                let mut acc = acc;
                proof {
                    lemma_stmts_push(acc@, s);
                }
                acc.push(s);
                parse_block_from(ts, acc, q2)
            },
            None => None,
        }
    }
}

fn parse_if(ts: &Vec<Token>, p: usize) -> (r: Option<(Stmt, usize)>)
    requires
        p <= ts@.len(),
    ensures
        stmt_res(r, p_if(kinds(ts@), p as int)),
        r matches Some((_, q)) ==> p < q <= ts@.len(),
    decreases ts@.len() - p, 22nat,
{
    if !(kw_at(ts, p, Keyword::If) && sym_at(ts, p + 1, Symbol::LParen)) {
        return None;
    }
    let (condition, q) = match parse_expr(ts, p + 2) {
        Some(x) => x,
        None => {
            return None;
        },
    };
    if !sym_at(ts, q, Symbol::RParen) {
        return None;
    }
    let (then_stmt, q2) = match parse_stmt(ts, q + 1) {
        Some(x) => x,
        None => {
            return None;
        },
    };
    if kw_at(ts, q2, Keyword::Else) {
        match parse_stmt(ts, q2 + 1) {
            Some((else_stmt, q3)) => Some(
                (Stmt::If(condition, Box::new(then_stmt), Some(Box::new(else_stmt))), q3),
            ),
            None => None,
        }
    } else {
        Some((Stmt::If(condition, Box::new(then_stmt), None), q2))
    }
}

fn parse_return(ts: &Vec<Token>, p: usize) -> (r: Option<(Stmt, usize)>)
    requires
        p <= ts@.len(),
    ensures
        stmt_res(r, p_return(kinds(ts@), p as int)),
        r matches Some((_, q)) ==> p < q <= ts@.len(),
    decreases ts@.len() - p, 22nat,
{
    if !kw_at(ts, p, Keyword::Return) {
        None
    } else if !sym_at(ts, p + 1, Symbol::Semicolon) {
        match parse_expr(ts, p + 1) {
            Some((e, q)) => if sym_at(ts, q, Symbol::Semicolon) {
                Some((Stmt::Return(Some(e)), q + 1))
            } else {
                None
            },
            None => None,
        }
    } else {
        Some((Stmt::Return(None), p + 2))
    }
}

fn parse_expr_stmt(ts: &Vec<Token>, p: usize) -> (r: Option<(Stmt, usize)>)
    requires
        p <= ts@.len(),
    ensures
        stmt_res(r, p_expr_stmt(kinds(ts@), p as int)),
        r matches Some((_, q)) ==> p < q <= ts@.len(),
    decreases ts@.len() - p, 22nat,
{
    match parse_expr(ts, p) {
        Some((e, q)) => if sym_at(ts, q, Symbol::Semicolon) {
            Some((Stmt::Expr(e), q + 1))
        } else {
            None
        },
        None => None,
    }
}

fn parse_stmt(ts: &Vec<Token>, p: usize) -> (r: Option<(Stmt, usize)>)
    requires
        p <= ts@.len(),
    ensures
        stmt_res(r, p_stmt(kinds(ts@), p as int)),
        r matches Some((_, q)) ==> p < q <= ts@.len(),
    decreases ts@.len() - p, 23nat,
{
    match peek(ts, p) {
        TokenType::Keyword(Keyword::If) => parse_if(ts, p),
        TokenType::Keyword(Keyword::Return) => parse_return(ts, p),
        TokenType::Symbol(Symbol::LBrace) => match parse_block(ts, p) {
            Some((b, q)) => Some((Stmt::Block(b), q)),
            None => None,
        },
        TokenType::Type(_) => match parse_decl(ts, p) {
            Some((Decl::Varible(v), q)) => Some((Stmt::VaribleDecl(v), q)),
            _ => None,
        },
        _ => parse_expr_stmt(ts, p),
    }
}

fn parse_decl(ts: &Vec<Token>, p: usize) -> (r: Option<(Decl, usize)>)
    requires
        p <= ts@.len(),
    ensures
        decl_res(r, p_decl(kinds(ts@), p as int)),
        r matches Some((_, q)) ==> p < q <= ts@.len(),
    decreases ts@.len() - p, 22nat,
{
    let (typ, q1) = match parse_type(ts, p) {
        Some(x) => x,
        None => {
            return None;
        },
    };
    let name = match peek(ts, q1) {
        TokenType::Identifer(name) => name,
        _ => {
            return None;
        },
    };
    let q2 = q1 + 1;
    if sym_at(ts, q2, Symbol::LParen) {
        let (params, q3) = match parse_params(ts, q2 + 1) {
            Some(x) => x,
            None => {
                return None;
            },
        };
        if !sym_at(ts, q3, Symbol::RParen) {
            return None;
        }
        if sym_at(ts, q3 + 1, Symbol::Semicolon) {
            Some(
                (
                    Decl::Function(
                        FunctionDecl { return_type: typ, name: name, params: params, body: None },
                    ),
                    q3 + 2,
                ),
            )
        } else {
            match parse_block(ts, q3 + 1) {
                Some((b, q4)) => Some(
                    (
                        Decl::Function(
                            FunctionDecl {
                                return_type: typ,
                                name: name,
                                params: params,
                                body: Some(b),
                            },
                        ),
                        q4,
                    ),
                ),
                None => None,
            }
        }
    } else if op_at(ts, q2, Operator::Assign) {
        match parse_expr(ts, q2 + 1) {
            Some((e, q4)) => if sym_at(ts, q4, Symbol::Semicolon) {
                Some((Decl::Varible(VaribleDecl { typ: typ, name: name, init: Some(e) }), q4 + 1))
            } else {
                None
            },
            None => None,
        }
    } else if sym_at(ts, q2, Symbol::Semicolon) {
        Some((Decl::Varible(VaribleDecl { typ: typ, name: name, init: None }), q2 + 1))
    } else {
        None
    }
}

/// A recursive-descent parser over a list of tokens.
#[derive(Debug, Clone, PartialEq)]
pub struct Parser {
    tokens: Vec<Token>,
    position: usize,
}

impl Parser {
    /// The kinds of the tokens.
    pub closed spec fn spec_kinds(&self) -> Kinds {
        kinds(self.tokens@)
    }

    /// The index of the next token to read.
    pub closed spec fn spec_position(&self) -> int {
        self.position as int
    }

    pub closed spec fn wf(&self) -> bool {
        self.position <= self.tokens@.len()
    }

    pub fn new(tokens: Vec<Token>) -> (r: Self)
        ensures
            r.wf(),
            r.spec_kinds() == kinds(tokens@),
            r.spec_position() == 0,
    {
        Self { tokens: tokens, position: 0 }
    }

    /// Parses declarations up to the end of file (`p_program_from`); `None` where
    /// the tokens do not form a program.
    pub fn try_parse(&mut self) -> (r: Option<Program>)
        requires
            old(self).wf(),
        ensures
            final(self).wf(),
            final(self).spec_kinds() == old(self).spec_kinds(),
            match p_program_from(old(self).spec_kinds(), Seq::empty(), old(self).spec_position()) {
                Some((ds, q)) => r matches Some(prog) && prog@ == ds && final(self).spec_position()
                    == q,
                None => r is None,
            },
    {
        let ghost ts = self.spec_kinds();
        let ghost p0 = self.position as int;
        let mut decls: Vec<Decl> = Vec::new();
        assert(decls_view(decls@) =~= Seq::<SpecDecl>::empty());
        loop
            invariant
                self.wf(),
                ts == self.spec_kinds(),
                ts == old(self).spec_kinds(),
                p0 == old(self).spec_position(),
                p_program_from(ts, Seq::empty(), p0) == p_program_from(
                    ts,
                    decls_view(decls@),
                    self.position as int,
                ),
            decreases self.tokens@.len() - self.position,
        {
            match peek(&self.tokens, self.position) {
                TokenType::EOF => {
                    return Some(Program { decls });
                },
                _ => {},
            }
            match parse_decl(&self.tokens, self.position) {
                Some((d, q)) => {
                    let ghost before = decls_view(decls@);
                    decls.push(d);
                    assert(decls_view(decls@) =~= before.push(decls@.last()@));
                    self.position = q;
                },
                None => {
                    return None;
                },
            }
        }
    }

    /// Parses declarations up to the end of file (`p_program_from`). The tokens
    /// must form a program.
    pub fn parse(&mut self) -> (r: Program)
        requires
            old(self).wf(),
            p_program_from(old(self).spec_kinds(), Seq::empty(), old(self).spec_position()) is Some,
        ensures
            final(self).wf(),
            p_program_from(old(self).spec_kinds(), Seq::empty(), old(self).spec_position()) matches Some((ds, q))
                && r@ == ds && final(self).spec_position() == q,
    {
        match self.try_parse() {
            Some(p) => p,
            None => vstd::pervasive::unreached(),
        }
    }
}

} // verus!
