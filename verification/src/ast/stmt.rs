use vstd::prelude::*;

use crate::ast::block::Block;
use crate::ast::declarations::{SpecVaribleDecl, VaribleDecl};
use crate::ast::expr::{Expr, SpecExpr};

verus! {

/// A statement.
#[derive(Debug, PartialEq)]
pub enum Stmt {
    Expr(Expr),
    VaribleDecl(VaribleDecl),
    Return(Option<Expr>),
    /// The condition, the statement taken when it holds, and the one taken otherwise.
    If(Expr, Box<Stmt>, Option<Box<Stmt>>),
    While(Expr, Box<Stmt>),
    /// `for (init; condition; step) body`
    For(Option<Expr>, Option<Expr>, Option<Expr>, Box<Stmt>),
    Block(Block),
    Continue,
    Break,
}

/// A statement as the contracts see it.
pub enum SpecStmt {
    Expr(SpecExpr),
    VaribleDecl(SpecVaribleDecl),
    Return(Option<SpecExpr>),
    If(SpecExpr, Box<SpecStmt>, Option<Box<SpecStmt>>),
    While(SpecExpr, Box<SpecStmt>),
    For(Option<SpecExpr>, Option<SpecExpr>, Option<SpecExpr>, Box<SpecStmt>),
    Block(Seq<SpecStmt>),
    Continue,
    Break,
}

pub open spec fn opt_expr_view(e: Option<Expr>) -> Option<SpecExpr> {
    match e {
        Some(x) => Some(x@),
        None => None,
    }
}

/// The view of a statement; a block is seen as its statements.
pub open spec fn stmt_view(s: Stmt) -> SpecStmt
    decreases s,
{
    match s {
        Stmt::Expr(e) => SpecStmt::Expr(e@),
        Stmt::VaribleDecl(v) => SpecStmt::VaribleDecl(v@),
        Stmt::Return(e) => SpecStmt::Return(opt_expr_view(e)),
        Stmt::If(c, t, e) => SpecStmt::If(
            c@,
            Box::new(stmt_view(*t)),
            match e {
                Some(x) => Some(Box::new(stmt_view(*x))),
                None => None,
            },
        ),
        Stmt::While(c, b) => SpecStmt::While(c@, Box::new(stmt_view(*b))),
        Stmt::For(a, b, c, d) => SpecStmt::For(
            opt_expr_view(a),
            opt_expr_view(b),
            opt_expr_view(c),
            Box::new(stmt_view(*d)),
        ),
        Stmt::Block(b) => SpecStmt::Block(stmts_view(b.stmts@)),
        Stmt::Continue => SpecStmt::Continue,
        Stmt::Break => SpecStmt::Break,
    }
}

/// The views of a list of statements.
pub open spec fn stmts_view(ss: Seq<Stmt>) -> Seq<SpecStmt>
    decreases ss,
{
    if ss.len() == 0 {
        Seq::empty()
    } else {
        stmts_view(ss.drop_last()).push(stmt_view(ss.last()))
    }
}

/// The views of a list of statements, one for each, in order.
pub proof fn lemma_stmts_view(ss: Seq<Stmt>)
    ensures
        stmts_view(ss).len() == ss.len(),
        forall|i: int| 0 <= i < ss.len() ==> #[trigger] stmts_view(ss)[i] == ss[i]@,
    decreases ss.len(),
{
    if ss.len() > 0 {
        lemma_stmts_view(ss.drop_last());
        assert forall|i: int| 0 <= i < ss.len() implies #[trigger] stmts_view(ss)[i] == ss[i]@ by {
            if i < ss.len() - 1 {
                assert(ss.drop_last()[i] == ss[i]);
            }
        }
    }
}

impl View for Stmt {
    type V = SpecStmt;

    open spec fn view(&self) -> SpecStmt {
        stmt_view(*self)
    }
}


/// A copy of an optional expression.
fn duplicate_opt(e: &Option<Expr>) -> (r: Option<Expr>)
    ensures
        opt_expr_view(r) == opt_expr_view(*e),
{
    match e {
        Some(x) => Some(x.duplicate()),
        None => None,
    }
}

impl Stmt {
    /// A copy of this statement, equal to it as the contracts see it.
    pub fn duplicate(&self) -> (r: Stmt)
        ensures
            r@ == self@,
        decreases self,
    {
        match self {
            Stmt::Expr(e) => Stmt::Expr(e.duplicate()),
            Stmt::VaribleDecl(v) => Stmt::VaribleDecl(
                VaribleDecl { typ: v.typ.clone(), name: v.name.clone(), init: duplicate_opt(&v.init) },
            ),
            Stmt::Return(e) => Stmt::Return(duplicate_opt(e)),
            Stmt::If(c, t, e) => {
                let e2 = match e {
                    Some(x) => Some(Box::new(x.duplicate())),
                    None => None,
                };
                Stmt::If(c.duplicate(), Box::new(t.duplicate()), e2)
            },
            Stmt::While(c, b) => Stmt::While(c.duplicate(), Box::new(b.duplicate())),
            Stmt::For(a, b, c, d) => Stmt::For(
                duplicate_opt(a),
                duplicate_opt(b),
                duplicate_opt(c),
                Box::new(d.duplicate()),
            ),
            Stmt::Block(block) => {
                let stmts = &block.stmts;
                let mut copy: Vec<Stmt> = Vec::new();
                let mut k: usize = 0;
                assert forall|j: int| 0 <= j < stmts@.len() implies decreases_to!(self => stmts@[j]) by {
                    assert(decreases_to!(*stmts => stmts@));
                }
                while k < stmts.len()
                    invariant
                        k <= stmts@.len(),
                        copy@.len() == k,
                        forall|j: int| 0 <= j < k ==> #[trigger] copy@[j]@ == stmts@[j]@,
                        forall|j: int| 0 <= j < stmts@.len() ==> decreases_to!(self => stmts@[j]),
                    decreases stmts.len() - k,
                {
                    assert(decreases_to!(self => stmts@[k as int]));
                    copy.push(stmts[k].duplicate());
                    k = k + 1;
                }
                proof {
                    lemma_stmts_view(copy@);
                    lemma_stmts_view(stmts@);
                    assert(stmts_view(copy@) =~= stmts_view(stmts@));
                }
                Stmt::Block(Block { stmts: copy })
            },
            Stmt::Continue => Stmt::Continue,
            Stmt::Break => Stmt::Break,
        }
    }
}

impl Clone for Stmt {
    fn clone(&self) -> (r: Self)
        ensures
            r@ == self@,
    {
        self.duplicate()
    }
}

} // verus!
