use vstd::prelude::*;

verus! {

/// The punctuation of the language: `( ) { } [ ] ; , :`. Quotes mark literals
/// and are not symbols.
#[derive(Debug, Clone, Copy, PartialEq, Eq, Structural)]
pub enum Symbol {
    LParen,
    RParen,
    LBrace,
    RBrace,
    LBracket,
    RBracket,
    Semicolon,
    Comma,
    Colon,
}

} // verus!
