use vstd::prelude::*;

verus! {

/// The type of a variable or function in the analysed source (`int`, `float`, `char*`, ...).
///
/// `Pointer` is not produced by the lexer; the parser builds it from a base type
/// followed by `*`.
#[derive(Debug, PartialEq, Eq)]
pub enum Type {
    Int,
    Char,
    Float,
    Double,
    Short,
    Long,
    Unsigned,
    Signed,
    Void,
    Noreturn,
    Pointer(Box<Type>),
}

impl Type {
    /// A copy of this type that is equal to it.
    pub fn duplicate(&self) -> (r: Type)
        ensures
            r == *self,
        decreases self,
    {
        match self {
            Type::Int => Type::Int,
            Type::Char => Type::Char,
            Type::Float => Type::Float,
            Type::Double => Type::Double,
            Type::Short => Type::Short,
            Type::Long => Type::Long,
            Type::Unsigned => Type::Unsigned,
            Type::Signed => Type::Signed,
            Type::Void => Type::Void,
            Type::Noreturn => Type::Noreturn,
            Type::Pointer(inner) => Type::Pointer(Box::new(inner.duplicate())),
        }
    }
}

impl Clone for Type {
    fn clone(&self) -> (r: Type)
        ensures
            r == *self,
    {
        self.duplicate()
    }
}

} // verus!
