use vstd::prelude::*;

use crate::lexer::types::Type as AstType;

verus! {

/// The kinds of values that the bytecode machine works with.
#[derive(Debug, Clone, Copy, PartialEq, Eq, Structural)]
pub enum Type {
    CHAR,
    INT,
    FLOAT,
}

impl Type {
    /// The machine type that a source type is held in; pointers have none.
    pub open spec fn of_ast(t: AstType) -> Type
        recommends
            !(t is Pointer),
    {
        match t {
            AstType::Char => Type::CHAR,
            AstType::Float | AstType::Double => Type::FLOAT,
            _ => Type::INT,
        }
    }

    /// Converts a source type into the machine type that holds it.
    /// `char` is held as `CHAR`, `float` and `double` as `FLOAT`, every other
    /// integer-like type (and `void`) as `INT`. Pointers are not supported.
    pub fn from(value: AstType) -> (r: Type)
        requires
            !(value is Pointer),
        ensures
            r == Type::of_ast(value),
    {
        match value {
            AstType::Char => Type::CHAR,
            AstType::Float | AstType::Double => Type::FLOAT,
            _ => Type::INT,
        }
    }
}

} // verus!
