use vstd::prelude::*;

use crate::ast::Type;

verus! {

/// A field of a structure: its name and type.
#[derive(Debug, Clone, PartialEq)]
pub struct Field {
    pub name: String,
    pub typ: Type,
}

} // verus!
