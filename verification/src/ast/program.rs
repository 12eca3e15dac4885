use vstd::prelude::*;

use crate::ast::declarations::{decls_view, Decl, SpecDecl};

verus! {

/// A whole program: its declarations in order.
#[derive(Debug, Clone, PartialEq)]
pub struct Program {
    pub decls: Vec<Decl>,
}

impl View for Program {
    type V = Seq<SpecDecl>;

    open spec fn view(&self) -> Seq<SpecDecl> {
        decls_view(self.decls@)
    }
}

} // verus!
