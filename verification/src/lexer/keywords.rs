use vstd::prelude::*;

verus! {

/// The keywords of the language.
#[derive(Debug, Clone, Copy, PartialEq, Eq, Structural)]
pub enum Keyword {
    If,
    Else,
    For,
    While,
    Do,
    Return,
    Break,
    Continue,
    Switch,
    Case,
    Default,
    Goto,
    Sizeof,
    Struct,
    Typedef,
    Function,
}

} // verus!
