use vstd::prelude::*;

use crate::ast::Type;

verus! {

/// A `typedef`: the new name and the type it stands for.
#[derive(Debug, Clone, PartialEq)]
pub struct TypeDefDecl {
    pub alias: String,
    pub typ: Type,
}

} // verus!
