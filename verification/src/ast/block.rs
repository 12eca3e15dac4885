use vstd::prelude::*;

use crate::ast::stmt::{stmts_view, SpecStmt, Stmt};

verus! {

/// A block `{ ... }`: its statements in order.
#[derive(Debug, Clone, PartialEq)]
pub struct Block {
    pub stmts: Vec<Stmt>,
}

impl View for Block {
    type V = Seq<SpecStmt>;

    open spec fn view(&self) -> Seq<SpecStmt> {
        stmts_view(self.stmts@)
    }
}

} // verus!
