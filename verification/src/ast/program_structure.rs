//! The whole program structure in one place: the declarations, statements and
//! expressions that a parsed program is made of.
pub use crate::ast::block::Block;
pub use crate::ast::declarations::{Decl, FunctionDecl, VaribleDecl};
pub use crate::ast::expr::Expr;
pub use crate::ast::operators::{BinaryOp, UnaryOp};
pub use crate::ast::param::Param;
pub use crate::ast::program::Program;
pub use crate::ast::stmt::Stmt;
