use vstd::prelude::*;

use crate::ast::block::Block;
use crate::ast::expr::{Expr, SpecExpr};
use crate::ast::param::{params_view, Param, SpecParam};
use crate::ast::stmt::{opt_expr_view, SpecStmt};
use crate::ast::Type;

verus! {

/// A top-level declaration: a function or a variable.
#[derive(Debug, Clone, PartialEq)]
pub enum Decl {
    Function(FunctionDecl),
    Varible(VaribleDecl),
}

/// A function: its return type, name, parameters, and body (`None` for a
/// declaration without one).
#[derive(Debug, Clone, PartialEq)]
pub struct FunctionDecl {
    pub return_type: Type,
    pub name: String,
    pub params: Vec<Param>,
    pub body: Option<Block>,
}

/// A variable: its type, name and initial value.
#[derive(Debug, Clone, PartialEq)]
pub struct VaribleDecl {
    pub typ: Type,
    pub name: String,
    pub init: Option<Expr>,
}

pub enum SpecDecl {
    Function(SpecFunctionDecl),
    Varible(SpecVaribleDecl),
}

pub struct SpecFunctionDecl {
    pub return_type: Type,
    pub name: Seq<char>,
    pub params: Seq<SpecParam>,
    pub body: Option<Seq<SpecStmt>>,
}

pub struct SpecVaribleDecl {
    pub typ: Type,
    pub name: Seq<char>,
    pub init: Option<SpecExpr>,
}

impl View for VaribleDecl {
    type V = SpecVaribleDecl;

    open spec fn view(&self) -> SpecVaribleDecl {
        SpecVaribleDecl { typ: self.typ, name: self.name@, init: opt_expr_view(self.init) }
    }
}

impl View for FunctionDecl {
    type V = SpecFunctionDecl;

    open spec fn view(&self) -> SpecFunctionDecl {
        SpecFunctionDecl {
            return_type: self.return_type,
            name: self.name@,
            params: params_view(self.params@),
            body: match self.body {
                Some(b) => Some(b@),
                None => None,
            },
        }
    }
}

impl View for Decl {
    type V = SpecDecl;

    open spec fn view(&self) -> SpecDecl {
        match self {
            Decl::Function(f) => SpecDecl::Function(f@),
            Decl::Varible(v) => SpecDecl::Varible(v@),
        }
    }
}

/// The views of a list of declarations.
pub open spec fn decls_view(ds: Seq<Decl>) -> Seq<SpecDecl> {
    ds.map_values(|d: Decl| d@)
}

} // verus!
