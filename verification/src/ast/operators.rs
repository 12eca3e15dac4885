use vstd::prelude::*;

verus! {

/// The binary operators of expressions.
#[derive(Debug, Clone, Copy, PartialEq, Eq, Structural)]
pub enum BinaryOp {
    // +  -  *  /  %
    Add,
    Sub,
    Mul,
    Div,
    Mod,
    // == != < <= > >=
    Eq,
    Ne,
    Lt,
    Le,
    Gt,
    Ge,
    // && ||
    And,
    Or,
    // & | ^ << >>
    BitAnd,
    BitOr,
    BitXor,
    Shl,
    Shr,
}

/// The unary operators of expressions.
#[derive(Debug, Clone, Copy, PartialEq, Eq, Structural)]
pub enum UnaryOp {
    /// `-e`
    Neg,
    /// `!e`
    Not,
    /// `~e`
    BitNot,
    /// `*e`
    Deref,
    /// `&e`
    AddressOf,
    PreInc,
    PostInc,
    PreDec,
    PostDec,
}

} // verus!
