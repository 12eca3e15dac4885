use vstd::prelude::*;

use std::collections::HashMap;

use crate::lexer::types::Type;

verus! {

/// The layout of a structure: its size, its alignment, and for each field its
/// type and offset.
#[derive(Debug, Clone, PartialEq)]
pub struct StructInfo {
    pub size: u32,
    pub align: u32,
    pub fields: HashMap<String, (Type, u32)>,
}

} // verus!
