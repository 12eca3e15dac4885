use vstd::prelude::*;

verus! {

/// The machine-level types that source types are mapped onto when emitting code.
#[derive(Debug, Clone, Copy, PartialEq, Eq, Structural)]
pub enum IRType {
    CHAR,
    FLOAT,
    INT,
    UINT,
}

} // verus!
