use vstd::prelude::*;

use crate::ast::field::Field;

verus! {

/// A structure declaration: its name and fields.
#[derive(Debug, Clone, PartialEq)]
pub struct StructDecl {
    pub name: String,
    pub fields: Vec<Field>,
}

} // verus!
