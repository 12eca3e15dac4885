use vstd::prelude::*;

verus! {

/// The operators of the language.
#[derive(Debug, Clone, Copy, PartialEq, Eq, Structural)]
pub enum Operator {
    // + - * / %
    Plus,
    Minus,
    Star,
    Slash,
    Percent,
    // ++ --
    PlusPlus,
    MinusMinus,
    // = += -= *= /= %= ^=
    Assign,
    PlusAssign,
    MinusAssign,
    StarAssign,
    SlashAssign,
    PercentAssign,
    XorAssign,
    // == != < > <= >=
    Eq,
    Neq,
    Lt,
    Gt,
    Le,
    Ge,
    // && || !
    LogicAnd,
    LogicOr,
    LogicNot,
    // & | ^ ~ << >>
    And,
    Or,
    Xor,
    Tilde,
    Shl,
    Shr,
    // -> .
    Arrow,
    Dot,
}

} // verus!
