use vstd::prelude::*;

use std::collections::HashMap;

use crate::ir::value::Value;

verus! {

/// The number of a variable slot.
pub type Index = usize;

/// The slots of the variables, by their number.
#[derive(Debug, Clone, PartialEq)]
pub struct VariableTable {
    pub slots: HashMap<Index, Slot>,
}

/// A variable slot: the value it holds and the slot number it was stored under.
#[derive(Debug, Clone, Copy, PartialEq, Eq, Structural)]
pub struct Slot {
    pub value: Value,
    pub index: Index,
}

} // verus!
