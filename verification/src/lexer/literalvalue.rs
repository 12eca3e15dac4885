use vstd::prelude::*;

verus! {

/// A constant in the source. A floating constant is kept as its decimal text
/// (digits, a point, digits), exactly as written.
#[derive(Debug, Clone, PartialEq)]
pub enum Literal {
    Interage(i64),
    Float(String),
    Char(char),
    String(String),
}

/// A constant as the contracts see it.
pub enum SpecLiteral {
    Interage(i64),
    Float(Seq<char>),
    Char(char),
    String(Seq<char>),
}

impl View for Literal {
    type V = SpecLiteral;

    open spec fn view(&self) -> SpecLiteral {
        match self {
            Literal::Interage(i) => SpecLiteral::Interage(*i),
            Literal::Float(t) => SpecLiteral::Float(t@),
            Literal::Char(c) => SpecLiteral::Char(*c),
            Literal::String(s) => SpecLiteral::String(s@),
        }
    }
}

impl Literal {
    /// A copy of this constant.
    pub fn duplicate(&self) -> (r: Literal)
        ensures
            r == *self,
    {
        match self {
            Literal::Interage(i) => Literal::Interage(*i),
            Literal::Float(t) => Literal::Float(t.clone()),
            Literal::Char(c) => Literal::Char(*c),
            Literal::String(s) => Literal::String(s.clone()),
        }
    }
}

} // verus!
